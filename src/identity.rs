//! Caller identities and the composite keys of the token ledger.

use vstd::prelude::*;

verus! {

/// Largest number of bytes in a principal.
pub const MAX_IDENTITY_LEN: usize = 29;

/// Character that joins an identity's text to an asset id in a ledger key.
pub const KEY_SEPARATOR: char = ':';

/// Textual form of the principal whose bytes are `raw`.
pub uninterp spec fn principal_text_of(raw: Seq<u8>) -> Seq<char>;

/// `s` holds no key separator.
pub open spec fn separator_free(s: Seq<char>) -> bool {
    forall|i: int| 0 <= i < s.len() ==> s[i] != KEY_SEPARATOR
}

/// `text` is the textual form of the principal bytes `raw` and of no other
/// principal.
pub open spec fn names_only(text: Seq<char>, raw: Seq<u8>) -> bool {
    forall|b: Seq<u8>|
        b.len() <= MAX_IDENTITY_LEN && #[trigger] principal_text_of(b) == text ==> b == raw
}

/// Relies on candid's `Principal::from_slice` and `Principal::to_text`: the text
/// is a function of the bytes, written in the lower-case base32 alphabet and
/// `-`, and it encodes the bytes, so no other principal has the same text.
#[verifier::external_body]
fn principal_text(raw: &[u8]) -> (r: String)
    requires
        raw@.len() <= MAX_IDENTITY_LEN,
    ensures
        r@ == principal_text_of(raw@),
        separator_free(r@),
        names_only(r@, raw@),
{
    candid::Principal::from_slice(raw).to_text()
}


/// The identity of a caller: the raw bytes of its principal, with their text.
#[derive(Clone, Debug)]
pub struct Identity {
    raw: Vec<u8>,
    text: String,
}

impl Identity {
    /// The principal bytes of this identity.
    pub closed spec fn bytes(&self) -> Seq<u8> {
        self.raw@
    }

    /// The text kept beside the bytes.
    pub closed spec fn kept_text(&self) -> Seq<char> {
        self.text@
    }

    /// The bytes fit in a principal, and the kept text is theirs alone and
    /// holds no key separator.
    pub open spec fn wf(&self) -> bool {
        &&& self.bytes().len() <= MAX_IDENTITY_LEN
        &&& self.kept_text() == self.text()
        &&& separator_free(self.text())
        &&& names_only(self.text(), self.bytes())
    }

    /// Textual form of this identity.
    pub open spec fn text(&self) -> Seq<char> {
        principal_text_of(self.bytes())
    }

    /// The identity with the given principal bytes, or `None` when there are
    /// more than a principal can hold.
    pub fn from_bytes(raw: Vec<u8>) -> (r: Option<Identity>)
        ensures
            r is Some <==> raw@.len() <= MAX_IDENTITY_LEN,
            r matches Some(id) ==> id.wf() && id.bytes() == raw@,
    {
        if raw.len() <= MAX_IDENTITY_LEN {
            let text = principal_text(raw.as_slice());
            Some(Identity { raw, text })
        } else {
            None
        }
    }

    /// The principal bytes of this identity.
    pub fn as_bytes(&self) -> (r: &[u8])
        ensures
            r@ == self.bytes(),
    {
        self.raw.as_slice()
    }

    /// Textual form of this identity.
    pub fn to_text(&self) -> (r: String)
        requires
            self.wf(),
        ensures
            r@ == self.text(),
            separator_free(r@),
    {
        self.text.clone()
    }
}

/// Prefix shared by every ledger key of the identity whose text is `id_text`.
pub open spec fn key_prefix(id_text: Seq<char>) -> Seq<char> {
    id_text.push(KEY_SEPARATOR)
}

/// Ledger key of the balance of `asset` held by the identity whose text is `id_text`.
pub open spec fn ledger_key(id_text: Seq<char>, asset: Seq<char>) -> Seq<char> {
    key_prefix(id_text) + asset
}

/// `p` is a prefix of `s`.
pub open spec fn has_prefix(s: Seq<char>, p: Seq<char>) -> bool {
    p.len() <= s.len() && s.subrange(0, p.len() as int) == p
}

/// Builds the prefix of `id`'s ledger keys.
pub fn key_prefix_of(id: &Identity) -> (r: String)
    requires
        id.wf(),
    ensures
        r@ == key_prefix(id.text()),
        separator_free(id.text()),
{
    let mut r = id.to_text();
    r.append(":");
    proof {
        reveal_strlit(":");
        assert(r@ =~= key_prefix(id.text()));
    }
    r
}

/// Builds the ledger key of `asset` for `id`.
pub fn ledger_key_of(id: &Identity, asset: &str) -> (r: String)
    requires
        id.wf(),
    ensures
        r@ == ledger_key(id.text(), asset@),
{
    let mut r = key_prefix_of(id);
    r.append(asset);
    r
}

/// The rest of `key` after `prefix`, or `None` when `key` does not start with it.
pub fn strip_key_prefix(key: &str, prefix: &str) -> (r: Option<String>)
    ensures
        r is Some <==> has_prefix(key@, prefix@),
        r matches Some(rest) ==> rest@ == key@.subrange(prefix@.len() as int, key@.len() as int),
{
    let kl = key.unicode_len();
    let pl = prefix.unicode_len();
    if pl > kl {
        return None;
    }
    let mut i: usize = 0;
    while i < pl
        invariant
            i <= pl <= kl,
            kl == key@.len(),
            pl == prefix@.len(),
            forall|j: int| 0 <= j < i ==> key@[j] == prefix@[j],
        decreases pl - i,
    {
        if key.get_char(i) != prefix.get_char(i) {
            assert(key@.subrange(0, pl as int)[i as int] == key@[i as int]);
            return None;
        }
        i = i + 1;
    }
    assert(key@.subrange(0, pl as int) =~= prefix@);
    Some(crate::text::owned(key.substring_char(pl, kl)))
}

/// A key that starts with an identity's prefix is the ledger key of the rest.
pub proof fn lemma_key_split(key: Seq<char>, id_text: Seq<char>)
    requires
        has_prefix(key, key_prefix(id_text)),
    ensures
        key == ledger_key(
            id_text,
            key.subrange(key_prefix(id_text).len() as int, key.len() as int),
        ),
{
    let p = key_prefix(id_text);
    assert(key =~= key.subrange(0, p.len() as int) + key.subrange(p.len() as int, key.len() as int));
}

/// Identities with different principal bytes have different texts.
pub proof fn lemma_distinct_texts(a: Identity, b: Identity)
    requires
        a.wf(),
        b.wf(),
        a.bytes() != b.bytes(),
    ensures
        a.text() != b.text(),
{
    if a.text() == b.text() {
        assert(principal_text_of(b.bytes()) == a.text());
    }
}

/// A ledger key determines the identity text and the asset it was built from.
pub proof fn lemma_ledger_key_injective(t1: Seq<char>, a1: Seq<char>, t2: Seq<char>, a2: Seq<char>)
    requires
        separator_free(t1),
        separator_free(t2),
        ledger_key(t1, a1) == ledger_key(t2, a2),
    ensures
        t1 == t2,
        a1 == a2,
{
    let k = ledger_key(t1, a1);
    assert(k.subrange(0, t1.len() as int + 1) =~= key_prefix(t1));
    lemma_prefix_isolation_keys(t1, t2, a2);
    assert(k.subrange(t1.len() as int + 1, k.len() as int) =~= a1);
    assert(k.subrange(t2.len() as int + 1, k.len() as int) =~= a2);
}

/// For identities with different texts, no ledger key of the second starts with
/// the key prefix of the first, even when one text extends the other.
pub proof fn lemma_prefix_isolation_keys(ta: Seq<char>, tb: Seq<char>, asset: Seq<char>)
    requires
        separator_free(ta),
        separator_free(tb),
    ensures
        has_prefix(ledger_key(tb, asset), key_prefix(ta)) ==> ta == tb,
{
    let k = ledger_key(tb, asset);
    let p = key_prefix(ta);
    if has_prefix(k, p) {
        assert(k.subrange(0, p.len() as int)[ta.len() as int] == KEY_SEPARATOR);
        if ta.len() < tb.len() {
            assert(k[ta.len() as int] == tb[ta.len() as int]);
        } else if tb.len() < ta.len() {
            assert(k[tb.len() as int] == KEY_SEPARATOR);
            assert(k.subrange(0, p.len() as int)[tb.len() as int] == ta[tb.len() as int]);
        }
        assert forall|i: int| 0 <= i < ta.len() implies ta[i] == tb[i] by {
            assert(k.subrange(0, p.len() as int)[i] == k[i]);
        }
        assert(ta =~= tb);
    }
}

} // verus!
