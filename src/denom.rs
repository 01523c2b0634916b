//! Asset identifiers, their ledger keys and the order of those keys.

use vstd::prelude::*;
use vstd::string::StringExecFns;

verus! {

/// An asset held in escrow: a native currency by its code, or a token
/// contract by its address.
#[derive(Clone, Debug, PartialEq, Eq)]
pub enum Denom {
    Native(String),
    Cw20(String),
}

impl Denom {
    /// A copy of this asset identifier.
    pub fn duplicate(&self) -> (r: Denom)
        ensures
            r@ == self@,
    {
        match self {
            Denom::Native(n) => Denom::Native(n.clone()),
            Denom::Cw20(a) => Denom::Cw20(a.clone()),
        }
    }
}

/// What identifies an asset, as character sequences.
pub enum DenomKey {
    Native(Seq<char>),
    Cw20(Seq<char>),
}

impl View for Denom {
    type V = DenomKey;

    open spec fn view(&self) -> DenomKey {
        match self {
            Denom::Native(n) => DenomKey::Native(n@),
            Denom::Cw20(a) => DenomKey::Cw20(a@),
        }
    }
}

pub open spec fn native_prefix() -> Seq<char> {
    seq!['n', 'a', 't', 'i', 'v', 'e', '-']
}

pub open spec fn cw20_prefix() -> Seq<char> {
    seq!['c', 'w', '2', '0', '-']
}

/// The ledger key of an asset: its rail as a prefix, then its name.
pub open spec fn asset_key(d: DenomKey) -> Seq<char> {
    match d {
        DenomKey::Native(n) => native_prefix() + n,
        DenomKey::Cw20(a) => cw20_prefix() + a,
    }
}

/// Lexicographic order on character sequences, by code point (for UTF-8
/// text this is also the byte order).
pub open spec fn chars_lt(a: Seq<char>, b: Seq<char>) -> bool
    decreases a.len(),
{
    if a.len() == 0 {
        b.len() > 0
    } else if b.len() == 0 {
        false
    } else if a[0] != b[0] {
        (a[0] as int) < (b[0] as int)
    } else {
        chars_lt(a.drop_first(), b.drop_first())
    }
}

/// Order of assets within one account's part of the ledger.
pub open spec fn denom_lt(a: DenomKey, b: DenomKey) -> bool {
    chars_lt(asset_key(a), asset_key(b))
}

proof fn lemma_split_first(a: Seq<char>)
    requires
        a.len() > 0,
    ensures
        a == seq![a[0]] + a.drop_first(),
{
    assert(a =~= seq![a[0]] + a.drop_first());
}

pub proof fn lemma_chars_lt_irreflexive(a: Seq<char>)
    ensures
        !chars_lt(a, a),
    decreases a.len(),
{
    if a.len() > 0 {
        lemma_chars_lt_irreflexive(a.drop_first());
    }
}

pub proof fn lemma_chars_lt_transitive(a: Seq<char>, b: Seq<char>, c: Seq<char>)
    requires
        chars_lt(a, b),
        chars_lt(b, c),
    ensures
        chars_lt(a, c),
    decreases a.len(),
{
    if a.len() > 0 && b.len() > 0 && c.len() > 0 && a[0] == b[0] && b[0] == c[0] {
        lemma_chars_lt_transitive(a.drop_first(), b.drop_first(), c.drop_first());
    }
}

pub proof fn lemma_chars_lt_total(a: Seq<char>, b: Seq<char>)
    requires
        a != b,
    ensures
        chars_lt(a, b) || chars_lt(b, a),
    decreases a.len(),
{
    if a.len() == 0 && b.len() == 0 {
        assert(a =~= b);
    }
    if a.len() > 0 && b.len() > 0 && a[0] != b[0] {
        assert((a[0] as int) != (b[0] as int));
    }
    if a.len() > 0 && b.len() > 0 && a[0] == b[0] {
        lemma_split_first(a);
        lemma_split_first(b);
        lemma_chars_lt_total(a.drop_first(), b.drop_first());
    }
}

pub proof fn lemma_chars_lt_asymmetric(a: Seq<char>, b: Seq<char>)
    requires
        chars_lt(a, b),
    ensures
        !chars_lt(b, a),
{
    if chars_lt(b, a) {
        lemma_chars_lt_transitive(a, b, a);
        lemma_chars_lt_irreflexive(a);
    }
}

proof fn lemma_chars_lt_common_prefix(p: Seq<char>, a: Seq<char>, b: Seq<char>)
    ensures
        chars_lt(p + a, p + b) == chars_lt(a, b),
    decreases p.len(),
{
    if p.len() > 0 {
        assert((p + a).drop_first() =~= p.drop_first() + a);
        assert((p + b).drop_first() =~= p.drop_first() + b);
        lemma_chars_lt_common_prefix(p.drop_first(), a, b);
    }
}

/// Two assets have the same key exactly when they are the same asset.
pub proof fn lemma_asset_key_injective(a: DenomKey, b: DenomKey)
    ensures
        (asset_key(a) == asset_key(b)) == (a == b),
{
    match (a, b) {
        (DenomKey::Native(x), DenomKey::Native(y)) => {
            if asset_key(a) == asset_key(b) {
                assert(x =~= asset_key(a).skip(7));
                assert(y =~= asset_key(b).skip(7));
            }
        },
        (DenomKey::Cw20(x), DenomKey::Cw20(y)) => {
            if asset_key(a) == asset_key(b) {
                assert(x =~= asset_key(a).skip(5));
                assert(y =~= asset_key(b).skip(5));
            }
        },
        (DenomKey::Native(x), DenomKey::Cw20(y)) => {
            assert(asset_key(a)[0] != asset_key(b)[0]);
        },
        (DenomKey::Cw20(x), DenomKey::Native(y)) => {
            assert(asset_key(a)[0] != asset_key(b)[0]);
        },
    }
}

/// Whether `d` comes after the optional cursor `c` (everything does when
/// there is no cursor).
pub open spec fn after(c: Option<DenomKey>, d: DenomKey) -> bool {
    match c {
        Some(x) => denom_lt(x, d),
        None => true,
    }
}

pub proof fn lemma_denom_lt_transitive(a: DenomKey, b: DenomKey, c: DenomKey)
    requires
        denom_lt(a, b),
        denom_lt(b, c),
    ensures
        denom_lt(a, c),
{
    lemma_chars_lt_transitive(asset_key(a), asset_key(b), asset_key(c));
}

pub proof fn lemma_denom_lt_total(a: DenomKey, b: DenomKey)
    ensures
        denom_lt(a, b) || denom_lt(b, a) || a == b,
        !denom_lt(a, a),
        denom_lt(a, b) ==> !denom_lt(b, a),
{
    lemma_asset_key_injective(a, b);
    lemma_chars_lt_irreflexive(asset_key(a));
    if a != b {
        lemma_chars_lt_total(asset_key(a), asset_key(b));
    }
    if denom_lt(a, b) {
        lemma_chars_lt_asymmetric(asset_key(a), asset_key(b));
    }
}

/// Compares two strings by code point: negative, zero or positive as `a` is
/// before, equal to or after `b`.
pub fn compare_str(a: &str, b: &str) -> (r: i8)
    ensures
        (r < 0) == chars_lt(a@, b@),
        (r == 0) == (a@ == b@),
        (r > 0) == chars_lt(b@, a@),
{
    let la = a.unicode_len();
    let lb = b.unicode_len();
    let mut i: usize = 0;
    assert(a@.skip(0) =~= a@ && b@.skip(0) =~= b@);
    while i < la && i < lb
        invariant
            la == a@.len(),
            lb == b@.len(),
            i <= la,
            i <= lb,
            chars_lt(a@, b@) == chars_lt(a@.skip(i as int), b@.skip(i as int)),
            chars_lt(b@, a@) == chars_lt(b@.skip(i as int), a@.skip(i as int)),
            (a@ == b@) == (a@.skip(i as int) == b@.skip(i as int)),
        decreases la - i,
    {
        let ca = a.get_char(i);
        let cb = b.get_char(i);
        let ghost sa = a@.skip(i as int);
        let ghost sb = b@.skip(i as int);
        assert(sa[0] == ca && sb[0] == cb);
        if (ca as u32) < (cb as u32) {
            assert(sa != sb);
            return -1;
        }
        if (cb as u32) < (ca as u32) {
            assert(sa != sb);
            return 1;
        }
        assert(sa.drop_first() =~= a@.skip(i + 1));
        assert(sb.drop_first() =~= b@.skip(i + 1));
        proof {
            lemma_split_first(sa);
            lemma_split_first(sb);
        }
        i = i + 1;
    }
    if i < la {
        assert(a@.skip(i as int).len() > 0 && b@.skip(i as int).len() == 0);
        1
    } else if i < lb {
        assert(b@.skip(i as int).len() > 0 && a@.skip(i as int).len() == 0);
        -1
    } else {
        assert(a@.skip(i as int) =~= b@.skip(i as int));
        0
    }
}

/// Compares two assets by their ledger keys.
pub fn compare_denom(a: &Denom, b: &Denom) -> (r: i8)
    ensures
        (r < 0) == denom_lt(a@, b@),
        (r == 0) == (a@ == b@),
        (r > 0) == denom_lt(b@, a@),
{
    proof {
        lemma_asset_key_injective(a@, b@);
    }
    match (a, b) {
        (Denom::Native(x), Denom::Native(y)) => {
            proof {
                lemma_chars_lt_common_prefix(native_prefix(), x@, y@);
                lemma_chars_lt_common_prefix(native_prefix(), y@, x@);
            }
            compare_str(x.as_str(), y.as_str())
        },
        (Denom::Cw20(x), Denom::Cw20(y)) => {
            proof {
                lemma_chars_lt_common_prefix(cw20_prefix(), x@, y@);
                lemma_chars_lt_common_prefix(cw20_prefix(), y@, x@);
            }
            compare_str(x.as_str(), y.as_str())
        },
        (Denom::Native(_), Denom::Cw20(_)) => {
            assert(asset_key(b@)[0] == 'c' && asset_key(a@)[0] == 'n');
            1
        },
        (Denom::Cw20(_), Denom::Native(_)) => {
            assert(asset_key(a@)[0] == 'c' && asset_key(b@)[0] == 'n');
            -1
        },
    }
}

/// Whether two assets are the same.
pub fn same_denom(a: &Denom, b: &Denom) -> (r: bool)
    ensures
        r == (a@ == b@),
{
    compare_denom(a, b) == 0
}

/// The ledger key of an asset as text: `native-<code>` or `cw20-<address>`.
pub fn denom_to_key(denom: &Denom) -> (r: String)
    ensures
        r@ == asset_key(denom@),
{
    match denom {
        Denom::Native(n) => {
            proof {
                reveal_strlit("native-");
            }
            let mut key = String::from_str("native-");
            assert(key@ =~= native_prefix());
            key.append(n.as_str());
            key
        },
        Denom::Cw20(a) => {
            proof {
                reveal_strlit("cw20-");
            }
            let mut key = String::from_str("cw20-");
            assert(key@ =~= cw20_prefix());
            key.append(a.as_str());
            key
        },
    }
}

} // verus!
