use knn_jni_rs::stream_support::{
    missing_part, NativeEngineIndexInputMediator, NativeEngineIndexOutputMediator, StreamFault,
    StreamPart,
};

fn write_all(
    mediator: &mut NativeEngineIndexOutputMediator,
    buffer: &mut [u8],
    written: &mut Vec<u8>,
    source: &[u8],
) {
    let mut done = 0;
    while done < source.len() {
        let step = mediator.write_bytes(source, done, buffer);
        if let Some(count) = step.write_out {
            written.extend_from_slice(&buffer[..count as usize]);
        }
        done += step.copied;
    }
}

#[test]
fn everything_that_is_written_arrives() {
    let mut mediator = NativeEngineIndexOutputMediator::new(4);
    let mut buffer = [0u8; 4];
    let mut written = Vec::new();
    let first: Vec<u8> = (0..10).collect();
    write_all(&mut mediator, &mut buffer, &mut written, &first);
    assert_eq!(written, (0..8).collect::<Vec<u8>>());
    write_all(&mut mediator, &mut buffer, &mut written, &[10, 11, 12]);
    assert_eq!(written, (0..12).collect::<Vec<u8>>());
    let count = mediator.flush().unwrap();
    written.extend_from_slice(&buffer[..count as usize]);
    assert_eq!(written, (0..13).collect::<Vec<u8>>());
    assert_eq!(mediator.flush(), None);
}

#[test]
fn a_full_buffer_is_written_out_at_once() {
    let mut mediator = NativeEngineIndexOutputMediator::new(3);
    let mut buffer = [0u8; 3];
    let step = mediator.write_bytes(&[1, 2, 3], 0, &mut buffer);
    assert_eq!(step.copied, 3);
    assert_eq!(step.write_out, Some(3));
    assert_eq!(buffer, [1, 2, 3]);
    let step = mediator.write_bytes(&[9, 4], 1, &mut buffer);
    assert_eq!(step.copied, 1);
    assert_eq!(step.write_out, None);
    assert_eq!(buffer, [4, 2, 3]);
}

#[test]
fn reading_goes_on_until_everything_is_there() {
    let mut mediator = NativeEngineIndexInputMediator::new(5);
    let mut destination = [0u8; 5];
    assert_eq!(mediator.request(), Some(5));
    mediator.copy_bytes(&[1, 2, 3, 99], 3, &mut destination);
    assert_eq!(mediator.request(), Some(2));
    mediator.copy_bytes(&[4, 5, 99, 99], 2, &mut destination);
    assert_eq!(mediator.request(), None);
    assert_eq!(destination, [1, 2, 3, 4, 5]);
}

#[test]
fn what_was_written_is_read_back() {
    let source: Vec<u8> = (0..29).map(|n| n * 7).collect();
    let mut writer = NativeEngineIndexOutputMediator::new(6);
    let mut buffer = [0u8; 6];
    let mut stream = Vec::new();
    write_all(&mut writer, &mut buffer, &mut stream, &source);
    if let Some(count) = writer.flush() {
        stream.extend_from_slice(&buffer[..count as usize]);
    }

    let mut reader = NativeEngineIndexInputMediator::new(source.len());
    let mut read = vec![0u8; source.len()];
    let mut position = 0;
    while let Some(asked) = reader.request() {
        let count = asked.min(4);
        reader.copy_bytes(&stream[position..], count, &mut read);
        position += count;
    }
    assert_eq!(read, source);
}

#[test]
fn faults_of_streams_are_described() {
    assert_eq!(StreamFault::Reading.message(), "Reading bytes via IndexInput has failed.");
    assert_eq!(StreamFault::Remaining.message(), "Checking remaining bytes has failed.");
    assert_eq!(StreamFault::Writing.message(), "Writing bytes via IndexOutput has failed.");
    assert_eq!(missing_part(StreamPart::Class, "C"), "Failed to find class C");
    assert_eq!(missing_part(StreamPart::Method, "m"), "Failed to find method m");
    assert_eq!(missing_part(StreamPart::Field, "f"), "Failed to find field f");
}
