//! Addresses of accounts and contracts, ordered as the host chain orders
//! them: accounts before contracts, then by the bytes of the hash.
use vstd::prelude::*;

verus! {

#[derive(Clone, Copy, Debug, PartialEq, Eq, Structural)]
pub enum AddressKind {
    Account,
    Contract,
}

/// A 32-byte hash of an account or a contract package, held as four
/// big-endian 64-bit words (`h0` holds the first eight bytes).
#[derive(Clone, Copy, Debug, PartialEq, Eq, Structural)]
pub struct Address {
    pub kind: AddressKind,
    pub h0: u64,
    pub h1: u64,
    pub h2: u64,
    pub h3: u64,
}

pub open spec fn kind_rank(k: AddressKind) -> nat {
    match k {
        AddressKind::Account => 0,
        AddressKind::Contract => 1,
    }
}

/// Big-endian value of `n` bytes of `s` starting at `start`.
pub open spec fn be_value(s: Seq<u8>, start: int, n: nat) -> nat
    decreases n,
{
    if n == 0 { 0 } else { be_value(s, start, (n - 1) as nat) * 256 + s[start + n - 1] as nat }
}

pub proof fn lemma_be_value_bound(s: Seq<u8>, start: int, n: nat)
    ensures
        be_value(s, start, n) < vstd::arithmetic::power::pow(256, n),
    decreases n,
{
    vstd::arithmetic::power::lemma_pow_positive(256, n);
    if n > 0 {
        lemma_be_value_bound(s, start, (n - 1) as nat);
        vstd::arithmetic::power::lemma_pow_adds(256, (n - 1) as nat, 1);
        vstd::arithmetic::power::lemma_pow1(256);
        let p = vstd::arithmetic::power::pow(256, (n - 1) as nat);
        let v = be_value(s, start, (n - 1) as nat);
        assert(v * 256 + s[start + n - 1] < p * 256) by (nonlinear_arith)
            requires v < p, s[start + n - 1] < 256;
    }
}

impl Address {
    /// Strict order: by kind (accounts first), then by the hash words.
    pub open spec fn spec_lt(self, other: Address) -> bool {
        ||| kind_rank(self.kind) < kind_rank(other.kind)
        ||| (kind_rank(self.kind) == kind_rank(other.kind) && (
                self.h0 < other.h0
                || (self.h0 == other.h0 && (self.h1 < other.h1
                    || (self.h1 == other.h1 && (self.h2 < other.h2
                        || (self.h2 == other.h2 && self.h3 < other.h3)))))))
    }

    /// Whether the words hold `hash`, eight bytes each, big-endian.
    pub open spec fn holds_hash(self, hash: Seq<u8>) -> bool {
        &&& self.h0 == be_value(hash, 0, 8)
        &&& self.h1 == be_value(hash, 8, 8)
        &&& self.h2 == be_value(hash, 16, 8)
        &&& self.h3 == be_value(hash, 24, 8)
    }

    pub fn lt(&self, other: &Address) -> (r: bool)
        ensures
            r == self.spec_lt(*other),
    {
        let a = match self.kind { AddressKind::Account => 0u8, AddressKind::Contract => 1u8 };
        let b = match other.kind { AddressKind::Account => 0u8, AddressKind::Contract => 1u8 };
        if a != b {
            a < b
        } else if self.h0 != other.h0 {
            self.h0 < other.h0
        } else if self.h1 != other.h1 {
            self.h1 < other.h1
        } else if self.h2 != other.h2 {
            self.h2 < other.h2
        } else {
            self.h3 < other.h3
        }
    }

    /// The address of an account with the given hash.
    pub fn account(hash: [u8; 32]) -> (r: Address)
        ensures
            r.kind == AddressKind::Account,
            r.holds_hash(hash@),
    {
        Address { kind: AddressKind::Account, h0: word_at(&hash, 0), h1: word_at(&hash, 8), h2: word_at(&hash, 16), h3: word_at(&hash, 24) }
    }

    /// The address of a contract package with the given hash.
    pub fn contract(hash: [u8; 32]) -> (r: Address)
        ensures
            r.kind == AddressKind::Contract,
            r.holds_hash(hash@),
    {
        Address { kind: AddressKind::Contract, h0: word_at(&hash, 0), h1: word_at(&hash, 8), h2: word_at(&hash, 16), h3: word_at(&hash, 24) }
    }
}

/// The eight bytes of `hash` from `start`, read big-endian.
fn word_at(hash: &[u8; 32], start: usize) -> (r: u64)
    requires
        start + 8 <= 32,
    ensures
        r == be_value(hash@, start as int, 8),
{
    let mut w: u64 = 0;
    let mut i: usize = 0;
    while i < 8
        invariant
            i <= 8,
            start + 8 <= 32,
            w == be_value(hash@, start as int, i as nat),
        decreases 8 - i,
    {
        proof {
            lemma_be_value_bound(hash@, start as int, i as nat);
            vstd::arithmetic::power::lemma_pow_increases(256, i as nat, 7);
            assert(vstd::arithmetic::power::pow(256, 7) == 0x100_0000_0000_0000) by {
                vstd::arithmetic::power::lemma_pow_adds(256, 3, 4);
                reveal_with_fuel(vstd::arithmetic::power::pow, 5);
            }
            assert(w * 256 + hash@[start + i] as nat <= u64::MAX) by (nonlinear_arith)
                requires w < 0x100_0000_0000_0000, hash@[start + i] < 256;
        }
        w = w * 256 + hash[start + i] as u64;
        i = i + 1;
    }
    w
}

/// The bytes of `s` and `t` agree on the `n` places from `start`.
pub open spec fn bytes_eq(s: Seq<u8>, t: Seq<u8>, start: int, n: int) -> bool {
    forall|j: int| 0 <= j < n ==> #[trigger] s[start + j] == t[start + j]
}

/// The `n` bytes of `s` from `start` come before those of `t` in
/// lexicographic order: at the first place where they differ, `s` has the
/// smaller byte.
pub open spec fn bytes_lt(s: Seq<u8>, t: Seq<u8>, start: int, n: int) -> bool {
    exists|i: int| 0 <= i < n && #[trigger] s[start + i] < t[start + i] && bytes_eq(s, t, start, i)
}

proof fn lemma_bytes_split(s: Seq<u8>, t: Seq<u8>, start: int, a: int, b: int)
    requires
        0 <= a,
        0 <= b,
    ensures
        bytes_eq(s, t, start, a + b) <==> bytes_eq(s, t, start, a) && bytes_eq(s, t, start + a, b),
        bytes_lt(s, t, start, a + b) <==> bytes_lt(s, t, start, a)
            || (bytes_eq(s, t, start, a) && bytes_lt(s, t, start + a, b)),
{
    if bytes_eq(s, t, start, a) && bytes_eq(s, t, start + a, b) {
        assert forall|j: int| 0 <= j < a + b implies #[trigger] s[start + j] == t[start + j] by {
            if j >= a {
                assert(s[(start + a) + (j - a)] == t[(start + a) + (j - a)]);
                assert((start + a) + (j - a) == start + j);
            }
        }
    }
    if bytes_eq(s, t, start, a + b) {
        assert forall|j: int| 0 <= j < b implies #[trigger] s[(start + a) + j] == t[(start + a) + j] by {
            assert(s[start + (a + j)] == t[start + (a + j)]);
            assert(start + (a + j) == (start + a) + j);
        }
        assert forall|j: int| 0 <= j < a implies #[trigger] s[start + j] == t[start + j] by {
            assert(s[start + j] == t[start + j]);
        }
    }
    if bytes_lt(s, t, start, a + b) {
        let i = choose|i: int| 0 <= i < a + b && #[trigger] s[start + i] < t[start + i] && bytes_eq(s, t, start, i);
        if i < a {
            assert(bytes_eq(s, t, start, i));
            assert(s[start + i] < t[start + i]);
        } else {
            assert forall|j: int| 0 <= j < a implies #[trigger] s[start + j] == t[start + j] by {
                assert(s[start + j] == t[start + j]);
            }
            let k = i - a;
            assert(s[(start + a) + k] < t[(start + a) + k]) by { assert((start + a) + k == start + i); }
            assert forall|j: int| 0 <= j < k implies #[trigger] s[(start + a) + j] == t[(start + a) + j] by {
                assert(s[start + (a + j)] == t[start + (a + j)]);
                assert(start + (a + j) == (start + a) + j);
            }
            assert(bytes_eq(s, t, start + a, k));
        }
    }
    if bytes_lt(s, t, start, a) {
        let i = choose|i: int| 0 <= i < a && #[trigger] s[start + i] < t[start + i] && bytes_eq(s, t, start, i);
        assert(0 <= i < a + b && s[start + i] < t[start + i] && bytes_eq(s, t, start, i));
    }
    if bytes_eq(s, t, start, a) && bytes_lt(s, t, start + a, b) {
        let k = choose|k: int| 0 <= k < b && #[trigger] s[(start + a) + k] < t[(start + a) + k]
            && bytes_eq(s, t, start + a, k);
        let i = a + k;
        assert(s[start + i] < t[start + i]) by { assert(start + i == (start + a) + k); }
        assert forall|j: int| 0 <= j < i implies #[trigger] s[start + j] == t[start + j] by {
            if j >= a {
                assert(s[(start + a) + (j - a)] == t[(start + a) + (j - a)]);
                assert((start + a) + (j - a) == start + j);
            }
        }
        assert(0 <= i < a + b && s[start + i] < t[start + i] && bytes_eq(s, t, start, i));
    }
}

/// Comparing big-endian values is comparing their bytes in lexicographic
/// order.
proof fn lemma_be_value_order(s: Seq<u8>, t: Seq<u8>, start: int, n: nat)
    ensures
        be_value(s, start, n) == be_value(t, start, n) <==> bytes_eq(s, t, start, n as int),
        be_value(s, start, n) < be_value(t, start, n) <==> bytes_lt(s, t, start, n as int),
    decreases n,
{
    if n == 0 {
        assert(!bytes_lt(s, t, start, 0));
    } else {
        let m = (n - 1) as nat;
        lemma_be_value_order(s, t, start, m);
        lemma_bytes_split(s, t, start, m as int, 1);
        let x = be_value(s, start, m);
        let y = be_value(t, start, m);
        let c = s[start + m] as nat;
        let d = t[start + m] as nat;
        assert(x * 256 + c == y * 256 + d <==> x == y && c == d) by (nonlinear_arith)
            requires c < 256, d < 256;
        assert(x * 256 + c < y * 256 + d <==> x < y || (x == y && c < d)) by (nonlinear_arith)
            requires c < 256, d < 256;
        // one byte
        assert(bytes_eq(s, t, start + m, 1) <==> s[start + m] == t[start + m]) by {
            if s[start + m] == t[start + m] {
                assert forall|j: int| 0 <= j < 1 implies #[trigger] s[(start + m) + j] == t[(start + m) + j] by {
                    assert(j == 0);
                }
            }
            if bytes_eq(s, t, start + m, 1) {
                assert(s[(start + m) + 0] == t[(start + m) + 0]);
            }
        }
        assert(bytes_lt(s, t, start + m, 1) <==> s[start + m] < t[start + m]) by {
            if s[start + m] < t[start + m] {
                assert(s[(start + m) + 0] < t[(start + m) + 0]);
                assert(bytes_eq(s, t, start + m, 0));
            }
            if bytes_lt(s, t, start + m, 1) {
                let i = choose|i: int| 0 <= i < 1 && #[trigger] s[(start + m) + i] < t[(start + m) + i]
                    && bytes_eq(s, t, start + m, i);
                assert(i == 0);
            }
        }
    }
}

/// Addresses are ordered as the host chain orders them: accounts before
/// contracts, and within one kind by the bytes of the hash in lexicographic
/// order, from the first byte on.
pub proof fn law_address_order_is_lexicographic(a: Address, b: Address, ha: Seq<u8>, hb: Seq<u8>)
    requires
        a.holds_hash(ha),
        b.holds_hash(hb),
    ensures
        a.kind != b.kind ==> (a.spec_lt(b) <==> a.kind == AddressKind::Account),
        a.kind == b.kind ==> (a.spec_lt(b) <==> bytes_lt(ha, hb, 0, 32)),
{
    lemma_be_value_order(ha, hb, 0, 8);
    lemma_be_value_order(ha, hb, 8, 8);
    lemma_be_value_order(ha, hb, 16, 8);
    lemma_be_value_order(ha, hb, 24, 8);
    lemma_bytes_split(ha, hb, 0, 8, 24);
    lemma_bytes_split(ha, hb, 8, 8, 16);
    lemma_bytes_split(ha, hb, 16, 8, 8);
}

} // verus!
