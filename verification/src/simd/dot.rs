//! Dot products of a 4-bit query with 1-bit data.
//!
//! The query is stored as four bit planes, one after the other: plane `p` holds
//! bit `p` of every component. The data vector holds one bit per component.

use crate::bits;
use crate::bits::read_word;
use vstd::arithmetic::power2::*;
use vstd::prelude::*;

verus! {

/// How many ones the first `n` bytes of `d` share with the `n` bytes of `q`
/// that start at `start`.
pub open spec fn common_ones(q: Seq<u8>, start: int, d: Seq<u8>, n: nat) -> nat
    decreases n,
{
    if n == 0 {
        0
    } else {
        common_ones(q, start, d, (n - 1) as nat) + bits::ones((q[start + n - 1] & d[n - 1]) as nat)
    }
}

/// The dot product of a query of four bit planes of `n` bytes each with `n`
/// bytes of data: plane `p` weighs two to the power of `p`.
pub open spec fn int4_dot(q: Seq<u8>, d: Seq<u8>, n: nat) -> nat {
    common_ones(q, 0, d, n) + 2 * common_ones(q, n as int, d, n) + 4 * common_ones(
        q,
        2 * n as int,
        d,
        n,
    ) + 8 * common_ones(q, 3 * n as int, d, n)
}

/// The bit of component `j` in the bytes of `s` that start at `start`.
pub open spec fn component_bit(s: Seq<u8>, start: int, j: nat) -> nat {
    bits::byte_bit(s[start + (j / 8) as int], j % 8)
}

/// The 4-bit value of component `j` of a query of planes of `n` bytes.
pub open spec fn component_value(q: Seq<u8>, n: nat, j: nat) -> nat {
    component_bit(q, 0, j) + 2 * component_bit(q, n as int, j) + 4 * component_bit(
        q,
        2 * n as int,
        j,
    ) + 8 * component_bit(q, 3 * n as int, j)
}

/// The sum over the first `c` components of query value times data bit.
pub open spec fn component_sum(q: Seq<u8>, d: Seq<u8>, n: nat, c: nat) -> nat
    decreases c,
{
    if c == 0 {
        0
    } else {
        component_sum(q, d, n, (c - 1) as nat) + component_value(q, n, (c - 1) as nat)
            * component_bit(d, 0, (c - 1) as nat)
    }
}

/// `common_ones` never exceeds eight ones per byte.
pub proof fn lemma_common_ones_bound(q: Seq<u8>, start: int, d: Seq<u8>, n: nat)
    ensures
        common_ones(q, start, d, n) <= 8 * n,
    decreases n,
{
    if n > 0 {
        lemma_common_ones_bound(q, start, d, (n - 1) as nat);
        bits::lemma_ones_of_byte(q[start + n - 1] & d[n - 1]);
    }
}

/// Eight bytes at once: the common ones of two words extend the count by eight
/// bytes.
proof fn lemma_common_ones_word(q: Seq<u8>, start: int, d: Seq<u8>, n: nat)
    ensures
        common_ones(q, start, d, n + 8) == common_ones(q, start, d, n) + bits::ones(
            (bits::word_at(q, start + n) & bits::word_at(d, n as int)) as nat,
        ),
{
    reveal_with_fuel(common_ones, 9);
    bits::lemma_common_ones_of_words(q, start + n, d, n as int);
}

/// The sum over the first `k` bits of two bytes of the products of their bits.
spec fn bit_products(x: u8, y: u8, k: nat) -> nat
    decreases k,
{
    if k == 0 {
        0
    } else {
        bit_products(x, y, (k - 1) as nat) + bits::byte_bit(x, (k - 1) as nat) * bits::byte_bit(
            y,
            (k - 1) as nat,
        )
    }
}

/// The common ones of two bytes are the products of their bits, added up.
proof fn lemma_byte_products(x: u8, y: u8)
    ensures
        bits::ones((x & y) as nat) == bit_products(x, y, 8),
{
    bits::lemma_ones_of_byte(x & y);
    reveal_with_fuel(bit_products, 9);
    bits::lemma_byte_bit_and(x, y, 0);
    bits::lemma_byte_bit_and(x, y, 1);
    bits::lemma_byte_bit_and(x, y, 2);
    bits::lemma_byte_bit_and(x, y, 3);
    bits::lemma_byte_bit_and(x, y, 4);
    bits::lemma_byte_bit_and(x, y, 5);
    bits::lemma_byte_bit_and(x, y, 6);
    bits::lemma_byte_bit_and(x, y, 7);
}

/// The dot product is what its name says: the sum, over all components, of the
/// query's 4-bit value times the data's bit.
pub proof fn lemma_dot_is_component_sum(q: Seq<u8>, d: Seq<u8>, n: nat)
    ensures
        int4_dot(q, d, n) == component_sum(q, d, n, 8 * n),
{
    lemma_dot_prefix(q, d, n, n);
}

/// What component `8 * b + k` adds, split by planes.
proof fn lemma_component_term(q: Seq<u8>, d: Seq<u8>, n: nat, b: int, k: nat)
    requires
        0 <= b,
        k < 8,
    ensures
        component_value(q, n, (8 * b + k) as nat) * component_bit(d, 0, (8 * b + k) as nat)
            == bits::byte_bit(q[b], k) * bits::byte_bit(d[b], k) + 2 * (bits::byte_bit(q[n + b], k)
            * bits::byte_bit(d[b], k)) + 4 * (bits::byte_bit(q[2 * n + b], k) * bits::byte_bit(
            d[b],
            k,
        )) + 8 * (bits::byte_bit(q[3 * n + b], k) * bits::byte_bit(d[b], k)),
{
    let x0 = bits::byte_bit(q[b], k);
    let x1 = bits::byte_bit(q[n + b], k);
    let x2 = bits::byte_bit(q[2 * n + b], k);
    let x3 = bits::byte_bit(q[3 * n + b], k);
    let z = bits::byte_bit(d[b], k);
    assert((8 * b + k) as nat / 8 == b);
    assert((8 * b + k) as nat % 8 == k);
    assert((x0 + 2 * x1 + 4 * x2 + 8 * x3) * z == x0 * z + 2 * (x1 * z) + 4 * (x2 * z) + 8 * (x3
        * z)) by (nonlinear_arith);
}

/// What the first `k` components of byte `b` add.
proof fn lemma_component_sum_byte(q: Seq<u8>, d: Seq<u8>, n: nat, b: int, k: nat)
    requires
        0 <= b,
        k <= 8,
    ensures
        component_sum(q, d, n, (8 * b + k) as nat) == component_sum(q, d, n, (8 * b) as nat)
            + bit_products(q[b], d[b], k) + 2 * bit_products(q[n + b], d[b], k) + 4 * bit_products(
            q[2 * n + b],
            d[b],
            k,
        ) + 8 * bit_products(q[3 * n + b], d[b], k),
    decreases k,
{
    if k > 0 {
        let j = (k - 1) as nat;
        lemma_component_sum_byte(q, d, n, b, j);
        lemma_component_term(q, d, n, b, j);
        assert(((8 * b + k) as nat - 1) as nat == (8 * b + j) as nat);
    }
}

proof fn lemma_dot_prefix(q: Seq<u8>, d: Seq<u8>, n: nat, m: nat)
    ensures
        common_ones(q, 0, d, m) + 2 * common_ones(q, n as int, d, m) + 4 * common_ones(
            q,
            2 * n as int,
            d,
            m,
        ) + 8 * common_ones(q, 3 * n as int, d, m) == component_sum(q, d, n, 8 * m),
    decreases m,
{
    if m > 0 {
        lemma_dot_prefix(q, d, n, (m - 1) as nat);
        lemma_component_sum_byte(q, d, n, m - 1, 8);
        lemma_byte_products(q[m - 1], d[m - 1]);
        lemma_byte_products(q[n + (m - 1)], d[m - 1]);
        lemma_byte_products(q[2 * n + (m - 1)], d[m - 1]);
        lemma_byte_products(q[3 * n + (m - 1)], d[m - 1]);
        assert((8 * (m - 1) + 8) as nat == 8 * m);
        assert((8 * (m - 1)) as nat == 8 * ((m - 1) as nat));
    }
}

/// The sum depends on the bytes of the components alone.
pub proof fn lemma_component_sum_of_front(q: Seq<u8>, d: Seq<u8>, e: Seq<u8>, n: nat, c: nat)
    requires
        c <= 8 * n,
        forall|b: int| 0 <= b < n ==> #[trigger] d[b] == e[b],
    ensures
        component_sum(q, d, n, c) == component_sum(q, e, n, c),
    decreases c,
{
    if c > 0 {
        lemma_component_sum_of_front(q, d, e, n, (c - 1) as nat);
        let j = (c - 1) as nat;
        assert(d[(j / 8) as int] == e[(j / 8) as int]);
    }
}

/// The dot product of one data vector with the query, plane by plane.
pub fn int4_bit_dot_product(q: &[u8], d: &[u8], binary_code_bytes: i32) -> (result: i64)
    requires
        0 <= binary_code_bytes,
        4 * binary_code_bytes <= q.len(),
        binary_code_bytes <= d.len(),
    ensures
        result == int4_dot(q@, d@, binary_code_bytes as nat),
{
    let bcb = binary_code_bytes as usize;
    let p0 = plane_common_ones(q, 0, d, bcb);
    let p1 = plane_common_ones(q, bcb, d, bcb);
    let p2 = plane_common_ones(q, 2 * bcb, d, bcb);
    let p3 = plane_common_ones(q, 3 * bcb, d, bcb);
    p0 + 2 * p1 + 4 * p2 + 8 * p3
}

/// The ones that one plane shares with the data: whole words first, then the
/// bytes that are left.
fn plane_common_ones(q: &[u8], start: usize, d: &[u8], bcb: usize) -> (count: i64)
    requires
        bcb <= i32::MAX,
        start + bcb <= q.len(),
        bcb <= d.len(),
    ensures
        count == common_ones(q@, start as int, d@, bcb as nat),
        count <= 8 * bcb,
{
    let words = bcb / 8;
    let mut count: i64 = 0;
    let mut w: usize = 0;
    while w < words
        invariant
            w <= words,
            words == bcb / 8,
            bcb <= i32::MAX,
            start + bcb <= q.len(),
            bcb <= d.len(),
            count == common_ones(q@, start as int, d@, (8 * w) as nat),
            count <= 64 * w,
        decreases words - w,
    {
        let q_word = read_word(q, start + 8 * w);
        let d_word = read_word(d, 8 * w);
        proof {
            lemma_common_ones_word(q@, start as int, d@, (8 * w) as nat);
            lemma_common_ones_bound(q@, start as int, d@, (8 * w + 8) as nat);
        }
        let shared: u32 = (q_word & d_word).count_ones();
        count = count + shared as i64;
        w = w + 1;
    }
    let mut r: usize = 8 * words;
    while r < bcb
        invariant
            r <= bcb,
            bcb <= i32::MAX,
            start + bcb <= q.len(),
            bcb <= d.len(),
            count == common_ones(q@, start as int, d@, r as nat),
            count <= 8 * r,
        decreases bcb - r,
    {
        proof {
            lemma_common_ones_bound(q@, start as int, d@, (r + 1) as nat);
        }
        let shared: u32 = ((q[start + r] & d[r]) as u32).count_ones();
        count = count + shared as i64;
        r = r + 1;
    }
    count
}

/// The dot product of one data vector with the query, all four planes of a word
/// before the next word.
fn interleaved_dot_product(q: &[u8], d: &[u8], bcb: usize) -> (acc: i64)
    requires
        bcb <= i32::MAX,
        4 * bcb <= q.len(),
        bcb <= d.len(),
    ensures
        acc == int4_dot(q@, d@, bcb as nat),
{
    let words = bcb / 8;
    let mut acc: i64 = 0;
    let mut w: usize = 0;
    let ghost n = bcb as nat;
    while w < words
        invariant
            w <= words,
            words == bcb / 8,
            n == bcb,
            bcb <= i32::MAX,
            4 * bcb <= q.len(),
            bcb <= d.len(),
            acc == common_ones(q@, 0, d@, (8 * w) as nat) + 2 * common_ones(
                q@,
                n as int,
                d@,
                (8 * w) as nat,
            ) + 4 * common_ones(q@, 2 * n as int, d@, (8 * w) as nat) + 8 * common_ones(
                q@,
                3 * n as int,
                d@,
                (8 * w) as nat,
            ),
            acc <= 960 * w,
        decreases words - w,
    {
        let at = 8 * w;
        let d_word = read_word(d, at);
        let q0 = read_word(q, at);
        let q1 = read_word(q, bcb + at);
        let q2 = read_word(q, 2 * bcb + at);
        let q3 = read_word(q, 3 * bcb + at);
        proof {
            lemma_common_ones_word(q@, 0, d@, at as nat);
            lemma_common_ones_word(q@, n as int, d@, at as nat);
            lemma_common_ones_word(q@, 2 * n as int, d@, at as nat);
            lemma_common_ones_word(q@, 3 * n as int, d@, at as nat);
            lemma_common_ones_bound(q@, 0, d@, (at + 8) as nat);
            lemma_common_ones_bound(q@, n as int, d@, (at + 8) as nat);
            lemma_common_ones_bound(q@, 2 * n as int, d@, (at + 8) as nat);
            lemma_common_ones_bound(q@, 3 * n as int, d@, (at + 8) as nat);
        }
        let s0: u32 = (q0 & d_word).count_ones();
        let s1: u32 = (q1 & d_word).count_ones();
        let s2: u32 = (q2 & d_word).count_ones();
        let s3: u32 = (q3 & d_word).count_ones();
        acc = acc + (s0 as i64 + s1 as i64 * 2 + s2 as i64 * 4 + s3 as i64 * 8);
        w = w + 1;
    }
    let mut r: usize = 8 * words;
    while r < bcb
        invariant
            r <= bcb,
            n == bcb,
            bcb <= i32::MAX,
            4 * bcb <= q.len(),
            bcb <= d.len(),
            acc == common_ones(q@, 0, d@, r as nat) + 2 * common_ones(q@, n as int, d@, r as nat)
                + 4 * common_ones(q@, 2 * n as int, d@, r as nat) + 8 * common_ones(
                q@,
                3 * n as int,
                d@,
                r as nat,
            ),
            acc <= 120 * r,
        decreases bcb - r,
    {
        proof {
            lemma_common_ones_bound(q@, 0, d@, (r + 1) as nat);
            lemma_common_ones_bound(q@, n as int, d@, (r + 1) as nat);
            lemma_common_ones_bound(q@, 2 * n as int, d@, (r + 1) as nat);
            lemma_common_ones_bound(q@, 3 * n as int, d@, (r + 1) as nat);
        }
        let db = d[r];
        let s0: u32 = ((q[r] & db) as u32).count_ones();
        let s1: u32 = ((q[bcb + r] & db) as u32).count_ones();
        let s2: u32 = ((q[2 * bcb + r] & db) as u32).count_ones();
        let s3: u32 = ((q[3 * bcb + r] & db) as u32).count_ones();
        acc = acc + (s0 as i64 + s1 as i64 * 2 + s2 as i64 * 4 + s3 as i64 * 8);
        r = r + 1;
    }
    acc
}

/// The dot products of several data vectors with the query.
pub fn default_4bit_dot_product_batch(
    query: &[u8],
    data_vecs: &Vec<&[u8]>,
    binary_code_bytes: i32,
) -> (results: Vec<i64>)
    requires
        0 <= binary_code_bytes,
        4 * binary_code_bytes <= query.len(),
        forall|b: int|
            0 <= b < data_vecs@.len() ==> binary_code_bytes <= (#[trigger] data_vecs@[b])@.len(),
    ensures
        results@.len() == data_vecs@.len(),
        forall|b: int|
            0 <= b < data_vecs@.len() ==> #[trigger] results@[b] == int4_dot(
                query@,
                data_vecs@[b]@,
                binary_code_bytes as nat,
            ),
{
    let bcb = binary_code_bytes as usize;
    let mut results: Vec<i64> = Vec::new();
    let mut b: usize = 0;
    while b < data_vecs.len()
        invariant
            b <= data_vecs.len(),
            bcb == binary_code_bytes,
            4 * bcb <= query.len(),
            forall|k: int|
                0 <= k < data_vecs@.len() ==> binary_code_bytes <= (#[trigger] data_vecs@[k])@.len(),
            results@.len() == b,
            forall|k: int|
                0 <= k < b ==> #[trigger] results@[k] == int4_dot(
                    query@,
                    data_vecs@[k]@,
                    bcb as nat,
                ),
        decreases data_vecs.len() - b,
    {
        let data = data_vecs[b];
        assert(binary_code_bytes <= data_vecs@[b as int]@.len());
        let acc = interleaved_dot_product(query, data, bcb);
        results.push(acc);
        b = b + 1;
    }
    results
}

/// Each dot product is the sum, over all components, of the query's value times the data's
/// bit, however the products are computed: bit `j % 8` of byte `j / 8` is component `j`, and
/// the query's planes of `n` bytes hold the bits of its values, the lowest ones first.
pub proof fn lemma_dot_products(
    query: &[u8],
    data_vecs: &Vec<&[u8]>,
    n: i32,
    b: int,
    results: Vec<i64>,
    single: i64,
)
    requires
        0 <= n,
        0 <= b < data_vecs@.len(),
        call_ensures(default_4bit_dot_product_batch, (query, data_vecs, n), results),
        call_ensures(int4_bit_dot_product, (query, data_vecs@[b], n), single),
    ensures
        results@.len() == data_vecs@.len(),
        results@[b] == component_sum(query@, data_vecs@[b]@, n as nat, (8 * n) as nat),
        single == results@[b],
{
    lemma_dot_is_component_sum(query@, data_vecs@[b]@, n as nat);
}

/// A component's bit is a binary digit of its byte, and a query's value has four of them.
pub proof fn lemma_components(q: Seq<u8>, n: nat, j: nat)
    ensures
        component_bit(q, 0, j) == q[(j / 8) as int] as int / pow2(j % 8) as int % 2,
        component_value(q, n, j) < 16,
{
    bits::lemma_byte_bit(q[(j / 8) as int], j % 8);
}

} // verus!
