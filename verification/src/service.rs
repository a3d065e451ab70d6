//! What the service decides for each request: who may use it, where an item is
//! stored and under which key, which item a read returns, and which API key a
//! newcomer gets.

use vstd::prelude::*;
use crate::ads::{get_random_ad, is_ad};
use crate::cache::{after_put, after_touch, has_key, lookup, ItemCache};
use crate::random::{gen_range_inclusive, sample_alphanumeric, thread_rng};
use crate::text::{
    decimal, decimal_string, first_segment, has_prefix, header_text, is_ascii_alphanumeric,
    push_char, segment_before_colon, starts_with, all_visible_ascii, ascii_text,
};

verus! {

/// The request header that carries the caller's API key.
pub const API_KEY_HEADER: &'static str = "x-averagedb-api-key";

/// API keys that begin with this text are accepted without being registered.
pub const ENTERPRISE_PREFIX: &'static str = "enterprise-";

/// The number of random characters after the colon of an item key.
pub const RANDOM_SUFFIX_LEN: usize = 20;

/// How many fresh API keys are drawn before giving up.
pub const KEY_ATTEMPTS: usize = 10;

/// The smallest number an issued API key spells.
pub const MIN_API_KEY: u64 = 1;

/// The largest number an issued API key spells.
pub const MAX_API_KEY: u64 = 1000000;

/// The shortest delay put in front of every request, in milliseconds.
pub const MIN_DELAY_MS: u64 = 1;

/// The longest delay put in front of every request, in milliseconds.
pub const MAX_DELAY_MS: u64 = 1500;

/// The value stored under a newly issued API key.
pub const ISSUED_KEY_VALUE: u64 = 1;

/// The answer at `/`.
pub const ROOT_MESSAGE: &'static str = "Are you an idiot? Did you forget to look at the docs?";

/// The answer at `/health`, and the message of the `/u-up` report.
pub const HEALTHY_MESSAGE: &'static str = "Yeah";

/// The message of a stored item's receipt.
pub const STORED_MESSAGE: &'static str = "Great success!";

/// The message when no fresh API key could be found.
pub const KEYS_EXHAUSTED_MESSAGE: &'static str =
    "Failed to generate a unique API key sorry bud we're not experts";

/// The `/u-up` report.
#[derive(Debug)]
pub struct HealthResponse {
    pub message: String,
    pub brought_to_you_by: String,
}

/// The receipt for a stored item.
#[derive(Debug)]
pub struct InsertItemResponse {
    pub message: String,
    pub key: String,
    pub brought_to_you_by: String,
}

/// The body of a request to store an item.
#[derive(Debug)]
pub struct TestType {
    pub data: String,
}

/// A newly issued API key.
#[derive(Debug)]
pub struct CreateApiKeyResponse {
    pub api_key: String,
    pub brought_to_you_by: String,
}

/// The answer when no API key could be issued.
#[derive(Debug)]
pub struct CreateApiKeyError {
    pub message: String,
}

/// The query of a request to read an item.
#[derive(Debug)]
pub struct Key {
    pub key: String,
}

/// A stored item, as read back.
#[derive(Debug)]
pub struct GibsItemResponse {
    pub value: String,
    pub brought_to_you_by: String,
}

/// Why a request's API key was refused.
#[derive(Debug, Clone, Copy, PartialEq, Eq, Structural)]
pub enum KeyRejection {
    /// The API key header is absent.
    MissingKey,
    /// The API key header holds a byte that is not visible ASCII.
    InvalidCharacters,
    /// The API key header is empty.
    EmptyKey,
    /// The API key is neither an enterprise key nor a registered one.
    UnknownKey,
}

impl KeyRejection {
    /// The HTTP status of the refusal.
    pub open spec fn status_of(self) -> u16 {
        match self {
            KeyRejection::MissingKey => 401,
            KeyRejection::InvalidCharacters => 400,
            KeyRejection::EmptyKey => 400,
            KeyRejection::UnknownKey => 401,
        }
    }

    /// The text of the refusal.
    pub open spec fn message_of(self) -> Seq<char> {
        match self {
            KeyRejection::MissingKey => "You must provide an API key in the 'x-averagedb-api-key' header"@,
            KeyRejection::InvalidCharacters => "The 'x-averagedb-api-key' header contains invalid characters"@,
            KeyRejection::EmptyKey => "The 'x-averagedb-api-key' header must not be empty"@,
            KeyRejection::UnknownKey => "No way, Jose. Fix your API key. Figure it out."@,
        }
    }

    /// The HTTP status of the refusal.
    pub fn status(&self) -> (code: u16)
        ensures
            code == self.status_of(),
    {
        match self {
            KeyRejection::MissingKey => 401,
            KeyRejection::InvalidCharacters => 400,
            KeyRejection::EmptyKey => 400,
            KeyRejection::UnknownKey => 401,
        }
    }

    /// The text of the refusal.
    pub fn message(&self) -> (m: &'static str)
        ensures
            m@ == self.message_of(),
    {
        match self {
            KeyRejection::MissingKey => "You must provide an API key in the 'x-averagedb-api-key' header",
            KeyRejection::InvalidCharacters => "The 'x-averagedb-api-key' header contains invalid characters",
            KeyRejection::EmptyKey => "The 'x-averagedb-api-key' header must not be empty",
            KeyRejection::UnknownKey => "No way, Jose. Fix your API key. Figure it out.",
        }
    }
}

/// Why a request to read an item was refused.
#[derive(Debug, Clone, Copy, PartialEq, Eq, Structural)]
pub enum ItemRejection {
    /// The query names no key.
    MissingKey,
    /// The key's part before its first colon is not the caller's API key.
    KeyMismatch,
    /// No item is stored under the key.
    NotFound,
}

impl ItemRejection {
    /// The HTTP status of the refusal.
    pub open spec fn status_of(self) -> u16 {
        match self {
            ItemRejection::MissingKey => 400,
            ItemRejection::KeyMismatch => 401,
            ItemRejection::NotFound => 404,
        }
    }

    /// The text of the refusal.
    pub open spec fn message_of(self) -> Seq<char> {
        match self {
            ItemRejection::MissingKey => "You must provide a key in the query string"@,
            ItemRejection::KeyMismatch => "Query key must match api key in header"@,
            ItemRejection::NotFound => "No item found with this key. It might have been deleted.. 🤷"@,
        }
    }

    /// The HTTP status of the refusal.
    pub fn status(&self) -> (code: u16)
        ensures
            code == self.status_of(),
    {
        match self {
            ItemRejection::MissingKey => 400,
            ItemRejection::KeyMismatch => 401,
            ItemRejection::NotFound => 404,
        }
    }

    /// The text of the refusal.
    pub fn message(&self) -> (m: &'static str)
        ensures
            m@ == self.message_of(),
    {
        match self {
            ItemRejection::MissingKey => "You must provide a key in the query string",
            ItemRejection::KeyMismatch => "Query key must match api key in header",
            ItemRejection::NotFound => "No item found with this key. It might have been deleted.. 🤷",
        }
    }
}

/// The bytes of an optional header value.
pub open spec fn header_bytes(header: Option<&[u8]>) -> Option<Seq<u8>> {
    match header {
        Some(b) => Some(b@),
        None => None,
    }
}

/// The key is one that is accepted without registration.
pub open spec fn is_enterprise_key(k: Seq<char>) -> bool {
    has_prefix(k, ENTERPRISE_PREFIX@)
}

/// The API key check in front of the item endpoints: the key that the request
/// carries in its API key header, or why it is refused, given the cache's entries.
pub open spec fn key_check(e: Seq<(Seq<char>, Seq<char>)>, header: Option<Seq<u8>>) -> Result<
    Seq<char>,
    KeyRejection,
> {
    match header {
        None => Err(KeyRejection::MissingKey),
        Some(b) => if !all_visible_ascii(b) {
            Err(KeyRejection::InvalidCharacters)
        } else if ascii_text(b).len() == 0 {
            Err(KeyRejection::EmptyKey)
        } else if !is_enterprise_key(ascii_text(b)) && !has_key(e, ascii_text(b)) {
            Err(KeyRejection::UnknownKey)
        } else {
            Ok(ascii_text(b))
        },
    }
}

/// Checks the API key of a request, given the value of its API key header if it
/// has one: the key, which the item endpoints then act for, or why it is refused.
/// The cache is only read; its recency order is left as it is.
pub fn check_for_key(cache: &ItemCache, header: Option<&[u8]>) -> (r: Result<String, KeyRejection>)
    ensures
        match (r, key_check(cache@, header_bytes(header))) {
            (Ok(k), Ok(sk)) => k@ == sk,
            (Err(e), Err(se)) => e == se,
            _ => false,
        },
{
    let bytes = match header {
        None => {
            return Err(KeyRejection::MissingKey);
        },
        Some(b) => b,
    };
    let api_key = match header_text(bytes) {
        None => {
            return Err(KeyRejection::InvalidCharacters);
        },
        Some(t) => t,
    };
    if api_key.as_str().is_empty() {
        return Err(KeyRejection::EmptyKey);
    }
    let is_poor = !starts_with(api_key.as_str(), ENTERPRISE_PREFIX);
    if is_poor && !cache.contains(&api_key) {
        return Err(KeyRejection::UnknownKey);
    }
    Ok(api_key)
}

/// A random item-key suffix: ASCII letters and digits, of the fixed length.
pub open spec fn is_random_suffix(s: Seq<char>) -> bool {
    &&& s.len() == RANDOM_SUFFIX_LEN
    &&& forall|i: int| 0 <= i < s.len() ==> is_ascii_alphanumeric(#[trigger] s[i])
}

/// A random string of ASCII letters and digits, of the item-key suffix length.
pub fn get_random_string() -> (s: String)
    ensures
        is_random_suffix(s@),
{
    let mut rng = thread_rng();
    let mut s = String::new();
    for i in 0..RANDOM_SUFFIX_LEN
        invariant
            s@.len() == i,
            forall|j: int| 0 <= j < i ==> is_ascii_alphanumeric(#[trigger] s@[j]),
    {
        let b = sample_alphanumeric(&mut rng);
        push_char(&mut s, b as char);
    }
    s
}

/// The key an item is stored under: the API key, a colon, and a suffix.
pub open spec fn item_key(api_key: Seq<char>, suffix: Seq<char>) -> Seq<char> {
    api_key + seq![':'] + suffix
}

/// `key` is an item key of the caller with API key `api_key`, with a random suffix.
pub open spec fn is_item_key_of(key: Seq<char>, api_key: Seq<char>) -> bool {
    &&& key.len() == api_key.len() + 1 + RANDOM_SUFFIX_LEN
    &&& key == item_key(api_key, key.skip(api_key.len() + 1int))
    &&& is_random_suffix(key.skip(api_key.len() + 1int))
}

/// The key an item is stored under: the API key, a colon, and `suffix`.
pub fn combined_item_key(api_key: &str, suffix: &str) -> (k: String)
    ensures
        k@ == item_key(api_key@, suffix@),
{
    let mut k = api_key.to_owned();
    push_char(&mut k, ':');
    k.append(suffix);
    k
}

/// Stores `data` under the item key of `api_key` and `suffix`, and returns that key.
pub fn store_item(cache: &mut ItemCache, api_key: &str, suffix: &str, data: String) -> (key: String)
    requires
        old(cache).wf(),
    ensures
        key@ == item_key(api_key@, suffix@),
        final(cache).wf(),
        final(cache).capacity() == old(cache).capacity(),
        final(cache)@ == after_put(old(cache)@, old(cache).capacity(), key@, data@),
{
    let key = combined_item_key(api_key, suffix);
    cache.put(key.clone(), data);
    key
}

/// Stores the body's data for the caller with API key `api_key`, under a fresh
/// item key made of the API key, a colon and a random suffix; the receipt names
/// that key.
pub fn add_item(cache: &mut ItemCache, api_key: &str, body: TestType) -> (res: InsertItemResponse)
    requires
        old(cache).wf(),
    ensures
        is_item_key_of(res.key@, api_key@),
        final(cache).wf(),
        final(cache).capacity() == old(cache).capacity(),
        final(cache)@ == after_put(old(cache)@, old(cache).capacity(), res.key@, body.data@),
        res.message@ == STORED_MESSAGE@,
        is_ad(res.brought_to_you_by@),
{
    let random_string = get_random_string();
    let key = store_item(cache, api_key, random_string.as_str(), body.data);
    proof {
        let suffix = random_string@;
        assert(key@.skip(api_key@.len() + 1int) == suffix);
    }
    InsertItemResponse {
        message: STORED_MESSAGE.to_owned(),
        key,
        brought_to_you_by: get_random_ad(),
    }
}

/// The delay, in milliseconds, put in front of every request: a random number
/// from the shortest to the longest delay.
pub fn sorry_bud_delay_ms() -> (ms: u64)
    ensures
        MIN_DELAY_MS <= ms <= MAX_DELAY_MS,
{
    let mut rng = thread_rng();
    gen_range_inclusive(&mut rng, MIN_DELAY_MS, MAX_DELAY_MS)
}

/// `k` is the decimal numeral of a number in the range of issued API keys.
pub open spec fn is_generated_api_key(k: Seq<char>) -> bool {
    exists|n: nat| MIN_API_KEY <= n <= MAX_API_KEY && k == #[trigger] decimal(n)
}

/// A random number in the range of issued API keys.
pub fn draw_api_key_number() -> (n: u64)
    ensures
        MIN_API_KEY <= n <= MAX_API_KEY,
{
    let mut rng = thread_rng();
    gen_range_inclusive(&mut rng, MIN_API_KEY, MAX_API_KEY)
}

/// A random API key: the decimal numeral of a number in the issued range.
pub fn get_api_key() -> (k: String)
    ensures
        is_generated_api_key(k@),
{
    let n = draw_api_key_number();
    let k = decimal_string(n);
    assert(k@ == decimal(n as nat));
    k
}

/// Registers `candidate` as an API key unless some entry already has it as its
/// key; says whether it did.
pub fn register_api_key(cache: &mut ItemCache, candidate: String) -> (added: bool)
    requires
        old(cache).wf(),
    ensures
        added == !has_key(old(cache)@, candidate@),
        final(cache).wf(),
        final(cache).capacity() == old(cache).capacity(),
        final(cache)@ == if added {
            after_put(old(cache)@, old(cache).capacity(), candidate@, decimal(ISSUED_KEY_VALUE as nat))
        } else {
            old(cache)@
        },
{
    if cache.contains(&candidate) {
        false
    } else {
        cache.put(candidate, decimal_string(ISSUED_KEY_VALUE));
        true
    }
}

/// The first of `draws` whose decimal numeral no entry has as its key, if any.
pub open spec fn first_fresh_draw(e: Seq<(Seq<char>, Seq<char>)>, draws: Seq<u64>) -> Option<u64>
    decreases draws.len(),
{
    if draws.len() == 0 {
        None
    } else if !has_key(e, decimal(draws[0] as nat)) {
        Some(draws[0])
    } else {
        first_fresh_draw(e, draws.drop_first())
    }
}

/// Some draw's numeral is fresh exactly when `first_fresh_draw` finds one, and
/// what it finds is a fresh draw.
pub proof fn lemma_first_fresh_draw(e: Seq<(Seq<char>, Seq<char>)>, draws: Seq<u64>)
    ensures
        first_fresh_draw(e, draws) is Some <==> exists|i: int|
            0 <= i < draws.len() && !has_key(e, decimal(#[trigger] draws[i] as nat)),
        first_fresh_draw(e, draws) matches Some(n) ==> draws.contains(n) && !has_key(e, decimal(n as nat)),
    decreases draws.len(),
{
    if draws.len() > 0 {
        let rest = draws.drop_first();
        lemma_first_fresh_draw(e, rest);
        if has_key(e, decimal(draws[0] as nat)) {
            if exists|i: int| 0 <= i < draws.len() && !has_key(e, decimal(#[trigger] draws[i] as nat)) {
                let i = choose|i: int| 0 <= i < draws.len() && !has_key(e, decimal(#[trigger] draws[i] as nat));
                assert(rest[i - 1] == draws[i]);
            }
            if first_fresh_draw(e, rest) is Some {
                let i = choose|i: int| 0 <= i < rest.len() && !has_key(e, decimal(#[trigger] rest[i] as nat));
                assert(draws[i + 1] == rest[i]);
                let n = first_fresh_draw(e, rest)->0;
                let k = choose|k: int| 0 <= k < rest.len() && rest[k] == n;
                assert(draws[k + 1] == n);
            }
        } else {
            assert(draws[0] == draws[0]);
            assert(draws.contains(draws[0]));
        }
    }
}

/// Issues an API key from the given draws: registers the numeral of the first
/// draw that no entry has as its key, and returns it; when every draw is taken,
/// issues nothing and leaves the cache as it was.
pub fn issue_from_draws(cache: &mut ItemCache, draws: &Vec<u64>) -> (r: Option<String>)
    requires
        old(cache).wf(),
    ensures
        final(cache).wf(),
        final(cache).capacity() == old(cache).capacity(),
        match first_fresh_draw(old(cache)@, draws@) {
            Some(n) => {
                &&& r matches Some(k) && k@ == decimal(n as nat)
                &&& final(cache)@ == after_put(
                    old(cache)@,
                    old(cache).capacity(),
                    decimal(n as nat),
                    decimal(ISSUED_KEY_VALUE as nat),
                )
            },
            None => {
                &&& r is None
                &&& final(cache)@ == old(cache)@
            },
        },
{
    let ghost e = cache@;
    let n = draws.len();
    assert(draws@.skip(0) == draws@);
    for i in 0..n
        invariant
            n == draws@.len(),
            cache.wf(),
            cache.capacity() == old(cache).capacity(),
            cache@ == old(cache)@,
            e == old(cache)@,
            first_fresh_draw(e, draws@) == first_fresh_draw(e, draws@.skip(i as int)),
    {
        assert(draws@.skip(i as int).drop_first() == draws@.skip(i + 1));
        assert(draws@.skip(i as int)[0] == draws@[i as int]);
        let candidate = decimal_string(draws[i]);
        if register_api_key(cache, candidate.clone()) {
            return Some(candidate);
        }
    }
    assert(draws@.skip(n as int).len() == 0);
    None
}

/// Issues a new API key: draws a fixed number of random numbers in the range of
/// issued keys and registers the numeral of the first one that no entry has as
/// its key (see `issue_from_draws`). When every draw is taken the cache is left
/// as it was; when no entry's key is the numeral of a number in that range, a
/// key is always issued.
pub fn gibs_key(cache: &mut ItemCache) -> (r: Result<CreateApiKeyResponse, CreateApiKeyError>)
    requires
        old(cache).wf(),
    ensures
        final(cache).wf(),
        final(cache).capacity() == old(cache).capacity(),
        exists|draws: Seq<u64>|
            {
                &&& draws.len() == KEY_ATTEMPTS
                &&& forall|i: int| 0 <= i < draws.len() ==> MIN_API_KEY <= #[trigger] draws[i] <= MAX_API_KEY
                &&& match #[trigger] first_fresh_draw(old(cache)@, draws) {
                    Some(n) => r matches Ok(resp) && resp.api_key@ == decimal(n as nat) && final(cache)@
                        == after_put(
                        old(cache)@,
                        old(cache).capacity(),
                        decimal(n as nat),
                        decimal(ISSUED_KEY_VALUE as nat),
                    ),
                    None => r is Err && final(cache)@ == old(cache)@,
                }
            },
        (forall|n: nat| MIN_API_KEY <= n <= MAX_API_KEY ==> !has_key(old(cache)@, #[trigger] decimal(n)))
            ==> r is Ok,
        match r {
            Ok(resp) => {
                &&& is_generated_api_key(resp.api_key@)
                &&& !has_key(old(cache)@, resp.api_key@)
                &&& final(cache)@ == after_put(
                    old(cache)@,
                    old(cache).capacity(),
                    resp.api_key@,
                    decimal(ISSUED_KEY_VALUE as nat),
                )
                &&& is_ad(resp.brought_to_you_by@)
            },
            Err(e) => {
                &&& final(cache)@ == old(cache)@
                &&& e.message@ == KEYS_EXHAUSTED_MESSAGE@
            },
        },
{
    let mut draws: Vec<u64> = Vec::new();
    for i in 0..KEY_ATTEMPTS
        invariant
            draws@.len() == i,
            forall|j: int| 0 <= j < draws@.len() ==> MIN_API_KEY <= #[trigger] draws@[j] <= MAX_API_KEY,
    {
        draws.push(draw_api_key_number());
    }
    proof {
        lemma_first_fresh_draw(cache@, draws@);
        assert(MIN_API_KEY <= draws@[0] <= MAX_API_KEY);
        assert(has_key(cache@, decimal(draws@[0] as nat)) || first_fresh_draw(cache@, draws@) is Some);
    }
    let ghost old_entries = cache@;
    match issue_from_draws(cache, &draws) {
        Some(api_key) => {
            proof {
                let n = first_fresh_draw(old_entries, draws@)->0;
                let k = choose|k: int| 0 <= k < draws@.len() && draws@[k] == n;
                assert(MIN_API_KEY <= draws@[k] <= MAX_API_KEY);
                assert(api_key@ == decimal(n as nat));
            }
            Ok(CreateApiKeyResponse { api_key, brought_to_you_by: get_random_ad() })
        },
        None => Err(CreateApiKeyError { message: KEYS_EXHAUSTED_MESSAGE.to_owned() }),
    }
}

/// What a read of item `key` by the caller with API key `api_key` answers,
/// given the cache's entries.
pub open spec fn item_check(e: Seq<(Seq<char>, Seq<char>)>, api_key: Seq<char>, key: Seq<char>) -> Result<
    Seq<char>,
    ItemRejection,
> {
    if key.len() == 0 {
        Err(ItemRejection::MissingKey)
    } else if first_segment(key) != api_key {
        Err(ItemRejection::KeyMismatch)
    } else {
        match lookup(e, key) {
            Some(v) => Ok(v),
            None => Err(ItemRejection::NotFound),
        }
    }
}

/// The cache's entries after a read of item `key` by the caller with API key
/// `api_key`: the item, when the read reaches the cache, becomes the most recent.
pub open spec fn entries_after_item_read(
    e: Seq<(Seq<char>, Seq<char>)>,
    api_key: Seq<char>,
    key: Seq<char>,
) -> Seq<(Seq<char>, Seq<char>)> {
    if key.len() != 0 && first_segment(key) == api_key {
        after_touch(e, key)
    } else {
        e
    }
}

/// Reads item `key` for the caller with API key `api_key`: the key must be
/// non-empty and its part before the first colon must be that API key.
pub fn lookup_item(cache: &mut ItemCache, api_key: &str, key: &str) -> (r: Result<String, ItemRejection>)
    requires
        old(cache).wf(),
    ensures
        final(cache).wf(),
        final(cache).capacity() == old(cache).capacity(),
        final(cache)@ == entries_after_item_read(old(cache)@, api_key@, key@),
        match (r, item_check(old(cache)@, api_key@, key@)) {
            (Ok(v), Ok(sv)) => v@ == sv,
            (Err(e), Err(se)) => e == se,
            _ => false,
        },
{
    if key.is_empty() {
        return Err(ItemRejection::MissingKey);
    }
    let key_in_query = segment_before_colon(key);
    let caller = api_key.to_owned();
    if key_in_query != caller {
        return Err(ItemRejection::KeyMismatch);
    }
    let full_key = key.to_owned();
    match cache.get(&full_key) {
        Some(item) => Ok(item),
        None => Err(ItemRejection::NotFound),
    }
}

/// Reads the item named by the query for the caller with API key `api_key`
/// (see `lookup_item`); the answer carries an advertisement.
pub fn gibs_item(cache: &mut ItemCache, api_key: &str, query: &Key) -> (r: Result<GibsItemResponse, ItemRejection>)
    requires
        old(cache).wf(),
    ensures
        final(cache).wf(),
        final(cache).capacity() == old(cache).capacity(),
        final(cache)@ == entries_after_item_read(old(cache)@, api_key@, query.key@),
        match (r, item_check(old(cache)@, api_key@, query.key@)) {
            (Ok(resp), Ok(sv)) => resp.value@ == sv && is_ad(resp.brought_to_you_by@),
            (Err(e), Err(se)) => e == se,
            _ => false,
        },
{
    let value = lookup_item(cache, api_key, query.key.as_str())?;
    Ok(GibsItemResponse { value, brought_to_you_by: get_random_ad() })
}

/// The `/u-up` report: healthy, brought to you by a random advertisement.
pub fn health2() -> (res: HealthResponse)
    ensures
        res.message@ == HEALTHY_MESSAGE@,
        is_ad(res.brought_to_you_by@),
{
    HealthResponse { message: HEALTHY_MESSAGE.to_owned(), brought_to_you_by: get_random_ad() }
}

} // verus!
