//! The key and the value of the token registry, and the order of its keys.

use crate::pubkey::Pubkey;
use vstd::prelude::*;
use vstd::slice::slice_to_vec;
use vstd::utf8::{encode_utf8, encode_utf8_valid_utf8, valid_utf8};

verus! {

/// Key of the token registry: an asset class and the symbol of an asset.
#[derive(Clone, Debug, PartialEq, Eq, PartialOrd, Ord, Hash)]
pub struct TypeSymbol {
    pub account_type: u8,
    pub symbol: String,
}

/// Value of the token registry: the mint of an asset and the account that
/// pools its deposits.
#[derive(Clone, Copy, Debug, PartialEq, Eq)]
pub struct MintProgram {
    pub mint: Pubkey,
    pub program_token_account: Pubkey,
}

impl View for TypeSymbol {
    type V = (u8, Seq<u8>);

    /// The asset class and the UTF-8 bytes of the symbol.
    open spec fn view(&self) -> (u8, Seq<u8>) {
        (self.account_type, encode_utf8(self.symbol@))
    }
}

impl View for MintProgram {
    type V = (Seq<u8>, Seq<u8>);

    /// The bytes of the mint and of the custody account.
    open spec fn view(&self) -> (Seq<u8>, Seq<u8>) {
        (self.mint@, self.program_token_account@)
    }
}

/// Whether bytes are well-formed UTF-8, and so the bytes of some text.
#[verifier::opaque]
pub open spec fn is_utf8(bytes: Seq<u8>) -> bool {
    valid_utf8(bytes)
}

/// The bytes of a symbol are well-formed UTF-8.
pub proof fn lemma_symbol_is_utf8(key: TypeSymbol)
    ensures
        is_utf8(key@.1),
{
    reveal(is_utf8);
    encode_utf8_valid_utf8(key.symbol@);
}

/// The text that `String::from_utf8` of std makes of bytes: the text whose
/// UTF-8 form the bytes are, and none where the bytes are not UTF-8.
#[verifier::external_body]
pub(crate) fn string_from_utf8(bytes: Vec<u8>) -> (text: Option<String>)
    ensures
        match text {
            Some(t) => is_utf8(bytes@) && encode_utf8(t@) == bytes@,
            None => !is_utf8(bytes@),
        },
{
    String::from_utf8(bytes).ok()
}

/// The text whose UTF-8 form `bytes` are, if they are UTF-8.
pub fn text_of(bytes: &[u8]) -> (text: Option<String>)
    ensures
        match text {
            Some(t) => is_utf8(bytes@) && encode_utf8(t@) == bytes@,
            None => !is_utf8(bytes@),
        },
{
    string_from_utf8(slice_to_vec(bytes))
}

/// Lexicographic order of byte strings: a proper prefix comes first, and
/// otherwise the first differing byte decides.
pub open spec fn bytes_less(a: Seq<u8>, b: Seq<u8>) -> bool
    decreases a.len(),
{
    if b.len() == 0 {
        false
    } else if a.len() == 0 {
        true
    } else if a[0] != b[0] {
        a[0] < b[0]
    } else {
        bytes_less(a.drop_first(), b.drop_first())
    }
}

/// Order of registry keys: by asset class, then by symbol.
pub open spec fn key_less(a: (u8, Seq<u8>), b: (u8, Seq<u8>)) -> bool {
    a.0 < b.0 || (a.0 == b.0 && bytes_less(a.1, b.1))
}

/// Of two byte strings exactly one holds: the first is less, they are equal, or
/// the second is less.
pub proof fn lemma_bytes_order_total(a: Seq<u8>, b: Seq<u8>)
    ensures
        bytes_less(a, b) || a == b || bytes_less(b, a),
        !(bytes_less(a, b) && bytes_less(b, a)),
        !bytes_less(a, a),
    decreases a.len(),
{
    if a.len() > 0 {
        lemma_bytes_order_total(a.drop_first(), a.drop_first());
    }
    if a.len() == 0 || b.len() == 0 {
        if a.len() == 0 && b.len() == 0 {
            assert(a =~= b);
        }
    } else if a[0] == b[0] {
        lemma_bytes_order_total(a.drop_first(), b.drop_first());
        if a.drop_first() == b.drop_first() {
            assert(a =~= seq![a[0]] + a.drop_first());
            assert(b =~= seq![b[0]] + b.drop_first());
        }
    }
}

/// The order of byte strings is transitive.
pub proof fn lemma_bytes_order_transitive(a: Seq<u8>, b: Seq<u8>, c: Seq<u8>)
    requires
        bytes_less(a, b),
        bytes_less(b, c),
    ensures
        bytes_less(a, c),
    decreases a.len(),
{
    if a.len() > 0 && a[0] == b[0] && b[0] == c[0] {
        lemma_bytes_order_transitive(a.drop_first(), b.drop_first(), c.drop_first());
    }
}

/// Of two keys exactly one holds: the first is less, they are equal, or the
/// second is less.
pub proof fn lemma_key_order_total(a: (u8, Seq<u8>), b: (u8, Seq<u8>))
    ensures
        key_less(a, b) || a == b || key_less(b, a),
        !(key_less(a, b) && key_less(b, a)),
        !key_less(a, a),
{
    lemma_bytes_order_total(a.1, b.1);
    lemma_bytes_order_total(a.1, a.1);
}

/// The order of keys is transitive.
pub proof fn lemma_key_order_transitive(a: (u8, Seq<u8>), b: (u8, Seq<u8>), c: (u8, Seq<u8>))
    requires
        key_less(a, b),
        key_less(b, c),
    ensures
        key_less(a, c),
{
    if a.0 == b.0 && b.0 == c.0 {
        lemma_bytes_order_transitive(a.1, b.1, c.1);
    }
}

/// Whether `a` comes before `b` in lexicographic order.
pub fn lex_less(a: &[u8], b: &[u8]) -> (less: bool)
    ensures
        less == bytes_less(a@, b@),
{
    let mut i: usize = 0;
    assert(a@.skip(0) =~= a@ && b@.skip(0) =~= b@);
    loop
        invariant
            i <= a.len(),
            i <= b.len(),
            bytes_less(a@, b@) == bytes_less(a@.skip(i as int), b@.skip(i as int)),
        decreases a.len() - i,
    {
        if i == b.len() {
            return false;
        }
        if i == a.len() {
            return true;
        }
        if a[i] != b[i] {
            return a[i] < b[i];
        }
        assert(a@.skip(i as int).drop_first() =~= a@.skip(i + 1));
        assert(b@.skip(i as int).drop_first() =~= b@.skip(i + 1));
        i = i + 1;
    }
}

impl TypeSymbol {
    /// The UTF-8 bytes of the symbol.
    pub fn symbol_bytes(&self) -> (bytes: &[u8])
        ensures
            bytes@ == self@.1,
    {
        self.symbol.as_str().as_bytes()
    }

    /// A key with the same asset class and symbol.
    pub fn duplicate(&self) -> (copy: TypeSymbol)
        ensures
            copy == *self,
    {
        TypeSymbol { account_type: self.account_type, symbol: self.symbol.clone() }
    }

    /// Whether this key comes before `other`: by asset class, then by symbol.
    pub fn less_than(&self, other: &TypeSymbol) -> (less: bool)
        ensures
            less == key_less(self@, other@),
    {
        if self.account_type != other.account_type {
            self.account_type < other.account_type
        } else {
            lex_less(self.symbol_bytes(), other.symbol_bytes())
        }
    }

    /// Whether this key and `other` name the same asset class and symbol.
    pub fn same_as(&self, other: &TypeSymbol) -> (same: bool)
        ensures
            same == (self@ == other@),
    {
        self.account_type == other.account_type && crate::bytes::bytes_equal(
            self.symbol_bytes(),
            other.symbol_bytes(),
        )
    }
}

} // verus!
