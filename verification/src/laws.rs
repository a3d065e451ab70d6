//! Properties that relate the service's operations to one another.

use vstd::prelude::*;
use crate::cache::{
    after_put, entries_wf, has_key, lemma_position_unique, law_put_keeps_shape, law_put_lookup,
    lookup, Entries,
};
use crate::service::{
    entries_after_item_read, is_enterprise_key, item_check, item_key, key_check, KeyRejection,
    ItemRejection, ENTERPRISE_PREFIX, ISSUED_KEY_VALUE,
};
use crate::text::{
    all_visible_ascii, ascii_text, decimal, digit_char, first_segment, has_prefix, is_visible_ascii,
    law_first_segment,
};

verus! {

/// The part before the first colon of an item key is the API key it was made
/// from, when that API key holds no colon.
pub proof fn lemma_first_segment_of_item_key(api_key: Seq<char>, suffix: Seq<char>)
    requires
        !api_key.contains(':'),
    ensures
        first_segment(item_key(api_key, suffix)) == api_key,
    decreases api_key.len(),
{
    let k = item_key(api_key, suffix);
    if api_key.len() == 0 {
        assert(k[0] == ':');
    } else {
        assert(api_key[0] != ':');
        let rest = api_key.drop_first();
        assert(!rest.contains(':')) by {
            if rest.contains(':') {
                let i = choose|i: int| 0 <= i < rest.len() && rest[i] == ':';
                assert(api_key[i + 1] == ':');
            }
        }
        lemma_first_segment_of_item_key(rest, suffix);
        assert(k.drop_first() == item_key(rest, suffix));
        assert(api_key == seq![api_key[0]] + rest);
    }
}

/// An item just stored is read back: right after `add_item` stores `data` under
/// an item key of `api_key`, a read of that key by the same caller answers
/// `data` (for an API key without a colon, whose item keys begin with it), and
/// leaves the cache as the store left it.
pub proof fn law_stored_item_reads_back(
    e: Entries,
    cap: nat,
    api_key: Seq<char>,
    suffix: Seq<char>,
    data: Seq<char>,
)
    requires
        entries_wf(e, cap),
        !api_key.contains(':'),
    ensures
        item_check(after_put(e, cap, item_key(api_key, suffix), data), api_key, item_key(api_key, suffix))
            == Ok::<Seq<char>, ItemRejection>(data),
        entries_after_item_read(after_put(e, cap, item_key(api_key, suffix), data), api_key, item_key(api_key, suffix))
            == after_put(e, cap, item_key(api_key, suffix), data),
{
    let key = item_key(api_key, suffix);
    let r = after_put(e, cap, key, data);
    lemma_first_segment_of_item_key(api_key, suffix);
    law_put_lookup(e, cap, key, data, key);
    law_put_keeps_shape(e, cap, key, data);
    assert(key.len() > 0);
    assert(r[0] == (key, data));
    lemma_position_unique(r, key, 0);
    assert(r.remove(0) == r.drop_first());
    assert(seq![r[0]] + r.drop_first() == r);
}

/// The characters of a decimal numeral are digits, and there is at least one.
pub proof fn lemma_decimal_digits(n: nat)
    ensures
        decimal(n).len() > 0,
        forall|i: int| 0 <= i < decimal(n).len() ==> '0' <= #[trigger] decimal(n)[i] <= '9',
    decreases n,
{
    if n >= 10 {
        lemma_decimal_digits(n / 10);
        let d = digit_char(n % 10);
        assert forall|i: int| 0 <= i < decimal(n).len() implies '0' <= #[trigger] decimal(n)[i] <= '9' by {
            if i < decimal(n / 10).len() {
                assert(decimal(n)[i] == decimal(n / 10)[i]);
            }
        }
    }
}

/// A newly issued API key is accepted: right after `gibs_key` registers key `k`,
/// a request whose API key header spells `k` passes the API key check.
pub proof fn law_issued_key_is_accepted(e: Entries, cap: nat, n: nat, header: Seq<u8>)
    requires
        entries_wf(e, cap),
        ascii_text(header) == decimal(n),
    ensures
        key_check(after_put(e, cap, decimal(n), decimal(ISSUED_KEY_VALUE as nat)), Some(header))
            == Ok::<Seq<char>, KeyRejection>(decimal(n)),
{
    let k = decimal(n);
    let r = after_put(e, cap, k, decimal(ISSUED_KEY_VALUE as nat));
    lemma_decimal_digits(n);
    assert forall|i: int| 0 <= i < header.len() implies is_visible_ascii(#[trigger] header[i]) by {
        assert(ascii_text(header)[i] == header[i] as char);
        assert('0' <= k[i] <= '9');
    }
    law_put_lookup(e, cap, k, decimal(ISSUED_KEY_VALUE as nat), k);
}

/// An enterprise API key is always accepted, registered or not.
pub proof fn law_enterprise_key_is_accepted(e: Entries, header: Seq<u8>)
    requires
        all_visible_ascii(header),
        is_enterprise_key(ascii_text(header)),
    ensures
        key_check(e, Some(header)) == Ok::<Seq<char>, KeyRejection>(ascii_text(header)),
{
    reveal_strlit("enterprise-");
    assert(ENTERPRISE_PREFIX@.len() > 0);
}

/// A refused read leaves the cache as it was.
pub proof fn law_refused_read_changes_nothing(e: Entries, cap: nat, api_key: Seq<char>, key: Seq<char>)
    requires
        entries_wf(e, cap),
        item_check(e, api_key, key) is Err,
    ensures
        entries_after_item_read(e, api_key, key) == e,
{
}

/// The API key check, byte by byte: a request without the header is refused as
/// unauthenticated; a header with a byte outside 32..=126 other than a tab is
/// refused for its characters; an empty one as empty; otherwise the key is the
/// header's bytes read as characters, accepted when it begins with
/// `enterprise-` or is registered in the cache, and refused as unknown otherwise.
pub proof fn law_key_check_by_bytes(e: Entries, h: Seq<u8>)
    ensures
        key_check(e, None) == Err::<Seq<char>, KeyRejection>(KeyRejection::MissingKey),
        (exists|i: int| 0 <= i < h.len() && !(32 <= #[trigger] h[i] <= 126 || h[i] == 9))
            ==> key_check(e, Some(h)) == Err::<Seq<char>, KeyRejection>(KeyRejection::InvalidCharacters),
        (forall|i: int| 0 <= i < h.len() ==> (32 <= #[trigger] h[i] <= 126 || h[i] == 9)) ==> {
            &&& h.len() == 0 ==> key_check(e, Some(h)) == Err::<Seq<char>, KeyRejection>(KeyRejection::EmptyKey)
            &&& (h.len() > 0 && has_prefix(ascii_text(h), "enterprise-"@))
                ==> key_check(e, Some(h)) == Ok::<Seq<char>, KeyRejection>(ascii_text(h))
            &&& (h.len() > 0 && !has_prefix(ascii_text(h), "enterprise-"@) && has_key(e, ascii_text(h)))
                ==> key_check(e, Some(h)) == Ok::<Seq<char>, KeyRejection>(ascii_text(h))
            &&& (h.len() > 0 && !has_prefix(ascii_text(h), "enterprise-"@) && !has_key(e, ascii_text(h)))
                ==> key_check(e, Some(h)) == Err::<Seq<char>, KeyRejection>(KeyRejection::UnknownKey)
        },
        key_check(e, Some(h)) matches Ok(k) ==> k.len() == h.len() && forall|i: int|
            0 <= i < h.len() ==> k[i] == #[trigger] h[i] as char,
{
    reveal_strlit("enterprise-");
    assert(ENTERPRISE_PREFIX@ == "enterprise-"@);
    if exists|i: int| 0 <= i < h.len() && !(32 <= #[trigger] h[i] <= 126 || h[i] == 9) {
        let i = choose|i: int| 0 <= i < h.len() && !(32 <= #[trigger] h[i] <= 126 || h[i] == 9);
        assert(!is_visible_ascii(h[i]));
    }
}

/// A key with no colon is its own part before the first colon.
proof fn lemma_first_segment_without_colon(s: Seq<char>)
    requires
        !s.contains(':'),
    ensures
        first_segment(s) == s,
{
    law_first_segment(s);
    if first_segment(s).len() < s.len() {
        assert(s[first_segment(s).len() as int] == ':');
    }
}

/// A read of an item key by a caller whose API key differs from the key's part
/// before its first colon is refused with `KeyMismatch` and leaves the cache as
/// it was, whatever the cache holds: for a key `a:rest` with `a` free of colons,
/// and for a key with no colon at all.
pub proof fn law_foreign_key_is_refused(e: Entries, api_key: Seq<char>, a: Seq<char>, rest: Seq<char>)
    requires
        !a.contains(':'),
        a != api_key,
    ensures
        item_check(e, api_key, item_key(a, rest)) == Err::<Seq<char>, ItemRejection>(
            ItemRejection::KeyMismatch,
        ),
        entries_after_item_read(e, api_key, item_key(a, rest)) == e,
        a.len() > 0 ==> item_check(e, api_key, a) == Err::<Seq<char>, ItemRejection>(
            ItemRejection::KeyMismatch,
        ),
        entries_after_item_read(e, api_key, a) == e,
{
    lemma_first_segment_of_item_key(a, rest);
    assert(item_key(a, rest).len() > 0);
    lemma_first_segment_without_colon(a);
}

/// What a read answers, in terms of the key and the cache: an empty key is
/// refused as missing; a key whose part before its first colon is not the
/// caller's API key is refused as a mismatch; otherwise the stored value, or
/// `NotFound` when nothing is stored under the key. A successful read returns
/// exactly what is stored under the key and changes no stored value.
pub proof fn law_item_read(e: Entries, cap: nat, api_key: Seq<char>, key: Seq<char>)
    requires
        entries_wf(e, cap),
    ensures
        key.len() == 0 ==> item_check(e, api_key, key) == Err::<Seq<char>, ItemRejection>(
            ItemRejection::MissingKey,
        ) && entries_after_item_read(e, api_key, key) == e,
        key.len() > 0 && first_segment(key) != api_key ==> item_check(e, api_key, key) == Err::<
            Seq<char>,
            ItemRejection,
        >(ItemRejection::KeyMismatch) && entries_after_item_read(e, api_key, key) == e,
        key.len() > 0 && first_segment(key) == api_key && !has_key(e, key) ==> item_check(e, api_key, key)
            == Err::<Seq<char>, ItemRejection>(ItemRejection::NotFound) && entries_after_item_read(
            e,
            api_key,
            key,
        ) == e,
        item_check(e, api_key, key) matches Ok(v) ==> key.len() > 0 && first_segment(key) == api_key
            && lookup(e, key) == Some(v),
        forall|x: Seq<char>| #[trigger] lookup(entries_after_item_read(e, api_key, key), x) == lookup(e, x),
{
    assert forall|x: Seq<char>| #[trigger] lookup(entries_after_item_read(e, api_key, key), x) == lookup(e, x) by {
        crate::cache::law_read_keeps_items(e, cap, key, x);
    }
}

/// Two items stored under different keys are both kept: after storing `d1`
/// under `k1` and then `d2` under `k2 != k1`, with room for both, `k1` still
/// holds `d1` and `k2` holds `d2`.
pub proof fn law_distinct_stores_are_kept(
    e: Entries,
    cap: nat,
    k1: Seq<char>,
    d1: Seq<char>,
    k2: Seq<char>,
    d2: Seq<char>,
)
    requires
        entries_wf(e, cap),
        k1 != k2,
        e.len() + 2 <= cap,
    ensures
        lookup(after_put(after_put(e, cap, k1, d1), cap, k2, d2), k1) == Some(d1),
        lookup(after_put(after_put(e, cap, k1, d1), cap, k2, d2), k2) == Some(d2),
{
    let e1 = after_put(e, cap, k1, d1);
    law_put_lookup(e, cap, k1, d1, k1);
    law_put_keeps_shape(e, cap, k1, d1);
    assert(e1.len() <= e.len() + 1);
    law_put_lookup(e1, cap, k2, d2, k1);
    law_put_lookup(e1, cap, k2, d2, k2);
}

} // verus!
