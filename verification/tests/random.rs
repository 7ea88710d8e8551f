use mohu::random::{Generator, Pcg64, Philox4x64};

// Reference PCG-64-DXSM, written out independently for comparison.
fn pcg_reference(seed: u64, n: usize) -> Vec<u64> {
    const MUL: u128 = 0x2360_ED05_1FC6_5DA4_4385_DF64_9FCC_F645;
    let inc: u128 = ((seed as u128) << 1) | 1;
    let mut state: u128 = 0;
    state = state.wrapping_mul(MUL).wrapping_add(inc);
    state = state.wrapping_add(seed as u128);
    state = state.wrapping_mul(MUL).wrapping_add(inc);
    let mut out = Vec::new();
    for _ in 0..n {
        let s = state;
        state = state.wrapping_mul(MUL).wrapping_add(inc);
        let mut hi = (s >> 64) as u64;
        let lo = (s | 1) as u64;
        hi ^= hi >> 32;
        hi = hi.wrapping_mul(0xDA94_2042_E4DD_58B5);
        hi ^= hi >> 48;
        out.push(hi.wrapping_mul(lo));
    }
    out
}

// Reference Philox 4x64-10, written out independently for comparison.
fn philox_block(ctr: [u64; 4], key: [u64; 2]) -> [u64; 4] {
    let mut x = ctr;
    let mut k = key;
    for _ in 0..10 {
        let p0 = (0xD2E7470EE14C6C93u64 as u128) * (x[0] as u128);
        let p1 = (0xCA5A826395121157u64 as u128) * (x[2] as u128);
        x = [
            ((p1 >> 64) as u64) ^ x[1] ^ k[0],
            p1 as u64,
            ((p0 >> 64) as u64) ^ x[3] ^ k[1],
            p0 as u64,
        ];
        k = [k[0].wrapping_add(0x9E3779B97F4A7C15), k[1].wrapping_add(0xBB67AE8584CCA73B)];
    }
    x
}

fn philox_reference(seed: u64, n: usize) -> Vec<u64> {
    let key = [seed, seed.wrapping_mul(0x9E3779B97F4A7C15)];
    let mut out = Vec::new();
    let mut c0: u64 = 0;
    while out.len() < n {
        let b = philox_block([c0, 0, 0, 0], key);
        out.extend_from_slice(&b);
        c0 += 1;
    }
    out.truncate(n);
    out
}

#[test]
fn pcg_matches_reference_stream() {
    let mut g = Pcg64::seed(42);
    let expect = pcg_reference(42, 10);
    for e in expect {
        assert_eq!(g.next_u64(), e);
    }
}

#[test]
fn philox_matches_reference_stream() {
    let mut g = Philox4x64::seed(7);
    let expect = philox_reference(7, 11);
    for e in expect {
        assert_eq!(g.next_u64(), e);
    }
}

#[test]
fn same_seed_same_stream() {
    let mut a = Pcg64::seed(123);
    let mut b = Pcg64::seed(123);
    let mut c = Pcg64::seed(124);
    let mut differs = false;
    for _ in 0..16 {
        let x = a.next_u64();
        assert_eq!(x, b.next_u64());
        if x != c.next_u64() {
            differs = true;
        }
    }
    assert!(differs);
    let mut p = Philox4x64::seed(9);
    let mut q = Philox4x64::seed(9);
    for _ in 0..9 {
        assert_eq!(p.next_u64(), q.next_u64());
    }
}

#[test]
fn fill_bytes_is_little_endian_draws() {
    let mut a = Pcg64::seed(5);
    let mut b = Pcg64::seed(5);
    let mut buf = [0u8; 13];
    a.fill_bytes(&mut buf);
    let w0 = b.next_u64().to_le_bytes();
    let w1 = b.next_u64().to_le_bytes();
    assert_eq!(&buf[..8], &w0[..]);
    assert_eq!(&buf[8..], &w1[..5]);
    // Both generators have made two draws.
    assert_eq!(a.next_u64(), b.next_u64());
}

#[test]
fn philox_fill_bytes_is_little_endian_draws() {
    let mut a = Philox4x64::seed(1);
    let mut b = Philox4x64::seed(1);
    let mut buf = vec![0u8; 40];
    a.fill_bytes(&mut buf);
    for chunk in buf.chunks(8) {
        assert_eq!(chunk, &b.next_u64().to_le_bytes()[..]);
    }
    assert_eq!(a.next_u64(), b.next_u64());
}

#[test]
fn fill_empty_slice_draws_nothing() {
    let mut a = Pcg64::seed(3);
    let mut b = Pcg64::seed(3);
    let mut buf: [u8; 0] = [];
    a.fill_bytes(&mut buf);
    assert_eq!(a.next_u64(), b.next_u64());
}
