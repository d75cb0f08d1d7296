//! The button list of a pad group, as the protocol sends it: an array of bytes holding one
//! `u32` per four bytes, in the machine's byte order.

use vstd::prelude::*;

verus! {

/// The `u32` of four bytes read least significant first.
pub open spec fn le_u32(b: Seq<u8>) -> int {
    b[0] + 0x100 * b[1] + 0x1_0000 * b[2] + 0x100_0000 * b[3]
}

/// The `u32` of four bytes read most significant first.
pub open spec fn be_u32(b: Seq<u8>) -> int {
    b[3] + 0x100 * b[2] + 0x1_0000 * b[1] + 0x100_0000 * b[0]
}

/// `u32::from_ne_bytes`: the four bytes in the machine's byte order, which is one of the two
/// orders; which one is not stated.
#[verifier::external_body]
fn u32_from_ne_bytes(b: [u8; 4]) -> (r: u32)
    ensures
        r == le_u32(b@) || r == be_u32(b@),
{
    u32::from_ne_bytes(b)
}

/// The chunk of four bytes starting at `4 * i`.
pub open spec fn chunk(bytes: Seq<u8>, i: int) -> Seq<u8> {
    bytes.subrange(4 * i, 4 * i + 4)
}

/// `values` decodes the whole chunks of `bytes`, each in one of the two byte orders; a
/// trailing partial chunk is dropped.
pub open spec fn decodes(bytes: Seq<u8>, values: Seq<u32>) -> bool {
    &&& values.len() == bytes.len() / 4
    &&& forall|i: int|
        0 <= i < values.len() ==> #[trigger] values[i] == le_u32(chunk(bytes, i)) || values[i] == be_u32(
            chunk(bytes, i),
        )
}

/// Decode the whole chunks of `bytes` with `u32::from_ne_bytes`.
pub fn decode_chunks(bytes: &[u8]) -> (r: Vec<u32>)
    ensures
        decodes(bytes@, r@),
{
    let len = bytes.len();
    let n = len / 4;
    let mut r: Vec<u32> = Vec::new();
    let mut i: usize = 0;
    while i < n
        invariant
            n == bytes@.len() / 4,
            len == bytes@.len(),
            i <= n,
            r@.len() == i,
            forall|k: int|
                0 <= k < i ==> #[trigger] r@[k] == le_u32(chunk(bytes@, k)) || r@[k] == be_u32(chunk(bytes@, k)),
        decreases n - i,
    {
        assert(4 * i + 3 < bytes@.len()) by (nonlinear_arith)
            requires
                i < n,
                n == bytes@.len() / 4,
        ;
        let at = 4 * i;
        let b: [u8; 4] = [bytes[at], bytes[at + 1], bytes[at + 2], bytes[at + 3]];
        proof {
            assert(b@ =~= chunk(bytes@, i as int));
        }
        r.push(u32_from_ne_bytes(b));
        i = i + 1;
    }
    r
}

/// The values in increasing order, each once.
pub open spec fn strictly_increasing(s: Seq<u32>) -> bool {
    forall|i: int, j: int| 0 <= i < j < s.len() ==> s[i] < s[j]
}

proof fn lemma_push_to_set(s: Seq<u32>, x: u32)
    ensures
        s.push(x).to_set() == s.to_set().insert(x),
{
    assert forall|y: u32| s.push(x).to_set().contains(y) implies s.to_set().insert(x).contains(y) by {
        let k = choose|k: int| 0 <= k < s.push(x).len() && s.push(x)[k] == y;
        if k < s.len() {
            assert(s[k] == y);
        }
    }
    assert forall|y: u32| s.to_set().insert(x).contains(y) implies s.push(x).to_set().contains(y) by {
        if y == x {
            assert(s.push(x)[s.len() as int] == x);
        } else {
            let k = choose|k: int| 0 <= k < s.len() && s[k] == y;
            assert(s.push(x)[k] == y);
        }
    }
    assert(s.push(x).to_set() =~= s.to_set().insert(x));
}

/// Sort and deduplicate.
pub fn sort_dedup(values: &Vec<u32>) -> (r: Vec<u32>)
    ensures
        strictly_increasing(r@),
        r@.to_set() == values@.to_set(),
{
    let mut r: Vec<u32> = Vec::new();
    let mut i: usize = 0;
    while i < values.len()
        invariant
            i <= values@.len(),
            strictly_increasing(r@),
            r@.to_set() == values@.take(i as int).to_set(),
        decreases values@.len() - i,
    {
        let x = values[i];
        let mut at: usize = 0;
        while at < r.len() && r[at] < x
            invariant
                at <= r@.len(),
                forall|k: int| 0 <= k < at ==> r@[k] < x,
            decreases r@.len() - at,
        {
            at = at + 1;
        }
        let ghost before = r@;
        proof {
            assert(values@.take(i + 1) =~= values@.take(i as int).push(x));
            lemma_push_to_set(values@.take(i as int), x);
        }
        if at < r.len() && r[at] == x {
            proof {
                assert(before.contains(x));
                assert(r@.to_set() =~= values@.take(i + 1).to_set());
            }
        } else {
            r.insert(at, x);
            proof {
                assert(values@.take(i + 1) =~= values@.take(i as int).push(x));
                assert forall|k: int| at < k < r@.len() implies r@[k] > x by {
                    assert(r@[k] == before[k - 1]);
                    if k - 1 > at {
                        assert(before[at as int] < before[k - 1]);
                    }
                    assert(before[at as int] != x);
                    assert(!(before[at as int] < x));
                }
                assert forall|a: int, b: int| 0 <= a < b < r@.len() implies r@[a] < r@[b] by {
                    if b < at {
                        assert(r@[a] == before[a] && r@[b] == before[b]);
                    } else if b == at {
                        assert(r@[a] == before[a]);
                    } else if a == at {
                    } else if a < at {
                        assert(r@[a] == before[a] && r@[b] == before[b - 1]);
                    } else {
                        assert(r@[a] == before[a - 1] && r@[b] == before[b - 1]);
                    }
                }
                assert(r@.to_set() =~= before.to_set().insert(x)) by {
                    assert forall|y: u32| r@.to_set().contains(y) implies before.to_set().insert(x).contains(y) by {
                        let k = choose|k: int| 0 <= k < r@.len() && r@[k] == y;
                        if k < at {
                            assert(before[k] == y);
                        } else if k > at {
                            assert(before[k - 1] == y);
                        }
                    }
                    assert forall|y: u32| before.to_set().insert(x).contains(y) implies r@.to_set().contains(y) by {
                        if y == x {
                            assert(r@[at as int] == x);
                        } else {
                            let k = choose|k: int| 0 <= k < before.len() && before[k] == y;
                            if k < at {
                                assert(r@[k] == y);
                            } else {
                                assert(r@[k + 1] == y);
                            }
                        }
                    }
                }
            }
        }
        i = i + 1;
    }
    assert(values@.take(i as int) =~= values@);
    r
}

/// The buttons of a pad group from the protocol's bytes: the decoded values, sorted and each
/// once.
pub fn group_buttons(bytes: &[u8]) -> (r: Vec<u32>)
    ensures
        strictly_increasing(r@),
        exists|values: Seq<u32>| decodes(bytes@, values) && r@.to_set() == values.to_set(),
{
    let values = decode_chunks(bytes);
    let r = sort_dedup(&values);
    assert(decodes(bytes@, values@) && r@.to_set() == values@.to_set());
    r
}

/// The buttons of a pad group after another button message: the buttons it had and the
/// decoded values of `bytes`, sorted and each once.
pub fn add_group_buttons(held: &Vec<u32>, bytes: &[u8]) -> (r: Vec<u32>)
    ensures
        strictly_increasing(r@),
        exists|values: Seq<u32>| decodes(bytes@, values) && r@.to_set() == held@.to_set().union(values.to_set()),
{
    let values = decode_chunks(bytes);
    let mut all: Vec<u32> = Vec::new();
    let mut i: usize = 0;
    while i < held.len()
        invariant
            i <= held@.len(),
            all@ == held@.take(i as int),
        decreases held@.len() - i,
    {
        all.push(held[i]);
        proof {
            assert(held@.take(i + 1) =~= held@.take(i as int).push(held@[i as int]));
        }
        i = i + 1;
    }
    assert(held@.take(i as int) =~= held@);
    let mut j: usize = 0;
    while j < values.len()
        invariant
            j <= values@.len(),
            all@ == held@ + values@.take(j as int),
        decreases values@.len() - j,
    {
        all.push(values[j]);
        proof {
            assert(values@.take(j + 1) =~= values@.take(j as int).push(values@[j as int]));
        }
        j = j + 1;
    }
    assert(values@.take(j as int) =~= values@);
    proof {
        let a = held@;
        let b = values@;
        assert forall|y: u32| (a + b).to_set().contains(y) <==> a.to_set().union(b.to_set()).contains(y) by {
            if (a + b).to_set().contains(y) {
                let k = choose|k: int| 0 <= k < (a + b).len() && (a + b)[k] == y;
                if k < a.len() {
                    assert(a[k] == y);
                } else {
                    assert(b[k - a.len()] == y);
                }
            }
            if a.to_set().contains(y) {
                let k = choose|k: int| 0 <= k < a.len() && a[k] == y;
                assert((a + b)[k] == y);
            }
            if b.to_set().contains(y) {
                let k = choose|k: int| 0 <= k < b.len() && b[k] == y;
                assert((a + b)[a.len() + k] == y);
            }
        }
        assert((a + b).to_set() =~= a.to_set().union(b.to_set()));
    }
    let r = sort_dedup(&all);
    assert(decodes(bytes@, values@) && r@.to_set() == held@.to_set().union(values@.to_set()));
    r
}

} // verus!
