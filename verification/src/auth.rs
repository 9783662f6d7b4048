//! API-key and operator authentication. Keys live in the configuration as
//! argon2 hashes and are presented as `Authorization: Bearer <key>` or
//! `x-api-key`. Keys that verified are remembered by the SHA-256 of the raw
//! key, never by the raw key itself, so that the argon2 cost is paid once.

use crate::config::ApiKeyConfig;
use crate::config::AuthConfig;
use crate::digest;
use crate::error;
use crate::error::ApiError;
use crate::text;
use argon2::PasswordHasher;
use argon2::PasswordVerifier;
use vstd::prelude::*;
use vstd::string::*;

verus! {

/// Whether `PasswordHash::new` accepts a text as a PHC string.
pub uninterp spec fn phc_valid(text: Seq<char>) -> bool;

/// Whether argon2 accepts a password for a PHC string.
pub uninterp spec fn password_matches(password: Seq<u8>, phc: Seq<char>) -> bool;

/// The PHC string argon2 makes of a password and a salt, if it makes one.
pub uninterp spec fn argon2_hash(password: Seq<u8>, salt: Seq<char>) -> Option<Seq<char>>;

/// The parameters of a PHC string: the name of each, and its value where that is
/// a decimal of 32 bits.
pub uninterp spec fn phc_pairs(text: Seq<char>) -> Seq<(Seq<char>, Option<u32>)>;

/// The most lanes for which argon2 can count the least memory in 32 bits.
pub const MAX_LANES: u32 = 0x1fff_ffff;

/// The lanes that parameters ask for: the last that were named, or one.
pub open spec fn lanes(pairs: Seq<(Seq<char>, Option<u32>)>) -> u32
    decreases pairs.len(),
{
    if pairs.len() == 0 {
        1
    } else if pairs.last().0 == "p"@ && pairs.last().1 is Some {
        pairs.last().1->0
    } else {
        lanes(pairs.drop_last())
    }
}

/// A PHC string accepts a password: it parses, it does not ask for more lanes than
/// argon2 can count, and argon2 accepts the password.
pub open spec fn accepts(password: Seq<u8>, phc: Seq<char>) -> bool {
    phc_valid(phc) && lanes(phc_pairs(phc)) <= MAX_LANES && password_matches(password, phc)
}

pub open spec fn pairs_view(list: Seq<(String, Option<u32>)>) -> Seq<(Seq<char>, Option<u32>)> {
    Seq::new(list.len(), |i: int| (list[i].0@, list[i].1))
}

/// `PasswordHash::new`, `ParamsString::iter` and `Value::decimal`: the parameters
/// of a text that parses, in order. Whether it parses, and what they are, depends
/// on the text alone.
#[verifier::external_body]
fn phc_params(text: &str) -> (r: Option<Vec<(String, Option<u32>)>>)
    ensures
        match r {
            Some(list) => phc_valid(text@) && pairs_view(list@) == phc_pairs(text@),
            None => !phc_valid(text@),
        },
{
    let parsed = argon2::password_hash::PasswordHash::new(text).ok()?;
    let pairs = parsed.params.iter();
    Some(pairs.map(|pair| (pair.0.as_str().to_owned(), pair.1.decimal().ok())).collect())
}

/// `Argon2::verify_password` on the parsed PHC string: whether the password
/// is the one that was hashed. It depends on the two arguments alone; a text
/// that is no PHC string accepts no password. Left out: more lanes than argon2
/// can count, on which the call panics where overflow is checked.
#[verifier::external_body]
fn verify_password(password: &[u8], phc: &str) -> (r: bool)
    requires
        lanes(phc_pairs(phc@)) <= MAX_LANES,
    ensures
        r == password_matches(password@, phc@),
        r ==> phc_valid(phc@),
{
    match argon2::password_hash::PasswordHash::new(phc) {
        Ok(parsed) => argon2::Argon2::default().verify_password(password, &parsed).is_ok(),
        Err(_) => false,
    }
}

/// `Argon2::hash_password` with the default parameters and the given salt:
/// a PHC string of one lane, which depends on the two arguments alone, that
/// accepts the password it was made of.
#[verifier::external_body]
fn hash_password(password: &[u8], salt: &str) -> (r: Option<String>)
    ensures
        text::opt_view(r) == argon2_hash(password@, salt@),
        match r {
            Some(phc) => phc@.len() > 0 && phc_valid(phc@) && lanes(phc_pairs(phc@)) == 1
                && password_matches(password@, phc@),
            None => true,
        },
{
    let salt = argon2::password_hash::SaltString::from_b64(salt).ok()?;
    let hash = argon2::Argon2::default().hash_password(password, &salt).ok()?;
    Some(hash.to_string())
}

/// The lanes that parameters ask for.
fn lanes_of(list: &Vec<(String, Option<u32>)>) -> (r: u32)
    ensures
        r == lanes(pairs_view(list@)),
{
    let ghost all = pairs_view(list@);
    let mut r: u32 = 1;
    let mut i: usize = 0;
    assert(all.take(0) =~= Seq::empty());
    while i < list.len()
        invariant
            i <= list@.len(),
            all == pairs_view(list@),
            r == lanes(all.take(i as int)),
        decreases list@.len() - i,
    {
        assert(all.take(i + 1).drop_last() =~= all.take(i as int));
        assert(all.take(i + 1).last() == all[i as int]);
        if text::same(list[i].0.as_str(), "p") {
            if let Some(n) = list[i].1 {
                r = n;
            }
        }
        i = i + 1;
    }
    assert(all.take(i as int) =~= all);
    r
}

/// Whether a PHC string accepts a password. One that asks for more lanes than
/// argon2 can count accepts none.
fn password_accepted(password: &[u8], phc: &str) -> (r: bool)
    ensures
        r == accepts(password@, phc@),
{
    match phc_params(phc) {
        None => false,
        Some(list) => lanes_of(&list) <= MAX_LANES && verify_password(password, phc),
    }
}

/// A configured key whose hash parses.
#[derive(Debug)]
pub struct StoredKey {
    pub name: String,
    pub phc: String,
}

/// A key that verified before.
#[derive(Debug)]
pub struct CachedKey {
    pub digest: [u8; 32],
    pub name: String,
}

#[derive(Debug)]
pub struct Auth {
    /// Only entries whose hash parses.
    pub keys: Vec<StoredKey>,
    /// Digests of keys that already verified, with the key's name.
    pub cache: Vec<CachedKey>,
    /// PHC hash of the operator token; `None` = admin surface disabled.
    pub admin_hash: Option<String>,
    /// Digest of the operator token once it has verified.
    pub admin_cache: Option<[u8; 32]>,
}

/// The bytes of a presented key.
pub open spec fn key_bytes(key: Seq<char>) -> Seq<u8> {
    vstd::utf8::encode_utf8(key)
}

/// The name of the first stored key, from `i` on, that accepts the password.
pub open spec fn lookup(keys: Seq<StoredKey>, password: Seq<u8>, i: int) -> Option<Seq<char>>
    decreases keys.len() - i,
{
    if i >= keys.len() {
        None
    } else if accepts(password, keys[i].phc@) {
        Some(keys[i].name@)
    } else {
        lookup(keys, password, i + 1)
    }
}

/// The configured keys that can be used, in order.
pub open spec fn usable(keys: Seq<ApiKeyConfig>) -> Seq<ApiKeyConfig>
    decreases keys.len(),
{
    if keys.len() == 0 {
        Seq::empty()
    } else if keys.last().key_hash@.len() > 0 && phc_valid(keys.last().key_hash@) {
        usable(keys.drop_last()).push(keys.last())
    } else {
        usable(keys.drop_last())
    }
}

/// The name remembered for a digest, if any.
pub open spec fn remembered(cache: Seq<CachedKey>, d: Seq<u8>, i: int) -> Option<Seq<char>>
    decreases cache.len() - i,
{
    if i >= cache.len() {
        None
    } else if cache[i].digest@ == d {
        Some(cache[i].name@)
    } else {
        remembered(cache, d, i + 1)
    }
}

/// A key with the remembered digest verified under the remembered name.
pub open spec fn verified_before(keys: Seq<StoredKey>, entry: CachedKey) -> bool {
    exists|key: Seq<u8>|
        digest::sha256(key) == entry.digest@ && #[trigger] lookup(keys, key, 0) == Some(
            entry.name@,
        )
}

/// A token with that digest matched the operator's hash.
pub open spec fn operator_before(phc: Seq<char>, d: Seq<u8>) -> bool {
    exists|key: Seq<u8>| digest::sha256(key) == d && #[trigger] accepts(key, phc)
}

impl Auth {
    /// Every remembered digest is that of a key that verified under the
    /// remembered name, and so is the operator's.
    pub open spec fn wf(self) -> bool {
        &&& forall|i: int|
            0 <= i < self.cache@.len() ==> verified_before(self.keys@, #[trigger] self.cache@[i])
        &&& self.admin_cache is Some ==> self.admin_hash is Some && operator_before(
            self.admin_hash->0@,
            self.admin_cache->0@,
        )
    }

    /// Builds the verifier. Entries with empty or unparseable hashes are
    /// skipped. With no usable keys, authentication is disabled; with no
    /// usable operator hash, the admin surface is.
    pub fn from_config(config: &AuthConfig) -> (r: Self)
        ensures
            r.wf(),
            r.cache@.len() == 0,
            r.admin_cache is None,
            r.keys@.len() == usable(config.api_keys@).len(),
            forall|i: int|
                0 <= i < r.keys@.len() ==> (#[trigger] r.keys@[i]).name@ == usable(
                    config.api_keys@,
                )[i].name@ && r.keys@[i].phc@ == usable(config.api_keys@)[i].key_hash@,
            text::opt_view(r.admin_hash) == (match config.admin_token_hash {
                Some(h) => if h@.len() > 0 && phc_valid(h@) {
                    Some(h@)
                } else {
                    None
                },
                None => None,
            }),
    {
        let mut keys: Vec<StoredKey> = Vec::new();
        let mut i: usize = 0;
        while i < config.api_keys.len()
            invariant
                i <= config.api_keys@.len(),
                keys@.len() == usable(config.api_keys@.take(i as int)).len(),
                forall|j: int|
                    0 <= j < keys@.len() ==> (#[trigger] keys@[j]).name@ == usable(
                        config.api_keys@.take(i as int),
                    )[j].name@ && keys@[j].phc@ == usable(
                        config.api_keys@.take(i as int),
                    )[j].key_hash@,
            decreases config.api_keys@.len() - i,
        {
            let entry: &ApiKeyConfig = &config.api_keys[i];
            assert(config.api_keys@.take(i + 1).drop_last() =~= config.api_keys@.take(i as int));
            if !entry.key_hash.as_str().is_empty() && phc_params(entry.key_hash.as_str()).is_some() {
                keys.push(StoredKey { name: entry.name.clone(), phc: entry.key_hash.clone() });
            }
            i = i + 1;
        }
        assert(config.api_keys@.take(i as int) =~= config.api_keys@);
        let admin_hash: Option<String> = match &config.admin_token_hash {
            None => None,
            Some(h) => if !h.as_str().is_empty() && phc_params(h.as_str()).is_some() {
                Some(h.clone())
            } else {
                None
            },
        };
        Auth { keys, cache: Vec::new(), admin_hash, admin_cache: None }
    }

    pub fn enabled(&self) -> (r: bool)
        ensures
            r == (self.keys@.len() > 0),
    {
        self.keys.len() > 0
    }

    pub fn admin_enabled(&self) -> (r: bool)
        ensures
            r == self.admin_hash is Some,
    {
        self.admin_hash.is_some()
    }

    /// What presenting this operator token gives.
    pub open spec fn admits_admin(self, presented: Seq<char>) -> bool {
        self.admin_hash is Some && ((self.admin_cache is Some && self.admin_cache->0@
            == digest::sha256(key_bytes(presented))) || accepts(
            key_bytes(presented),
            self.admin_hash->0@,
        ))
    }

    /// What presenting this operator token leaves: a token that is let in is
    /// the one remembered, and nothing else changes.
    pub open spec fn after_admin(self, presented: Seq<char>, after: Auth) -> bool {
        &&& after.keys == self.keys
        &&& after.cache == self.cache
        &&& after.admin_hash == self.admin_hash
        &&& if self.admits_admin(presented) {
            after.admin_cache is Some && after.admin_cache->0@ == digest::sha256(
                key_bytes(presented),
            )
        } else {
            after.admin_cache == self.admin_cache
        }
    }

    /// Verifies a presented operator token. API keys never grant admin.
    pub fn verify_admin(&mut self, presented: &str) -> (r: bool)
        requires
            old(self).wf(),
        ensures
            final(self).wf(),
            r == old(self).admits_admin(presented@),
            old(self).after_admin(presented@, *final(self)),
    {
        match &self.admin_hash {
            None => false,
            Some(hash) => {
                let d: [u8; 32] = digest::sha256_of(presented.as_bytes());
                if let Some(known) = &self.admin_cache {
                    if digest::same_digest(known, &d) {
                        return true;
                    }
                }
                let verified: bool = password_accepted(presented.as_bytes(), hash.as_str());
                if verified {
                    self.admin_cache = Some(d);
                    assert(operator_before(self.admin_hash->0@, self.admin_cache->0@)) by {
                        assert(accepts(key_bytes(presented@), self.admin_hash->0@));
                    }
                }
                verified
            },
        }
    }

    /// The name a presented key authenticates as.
    pub open spec fn identifies(self, presented: Seq<char>) -> Option<Seq<char>> {
        let d = digest::sha256(key_bytes(presented));
        if remembered(self.cache@, d, 0) is Some {
            remembered(self.cache@, d, 0)
        } else {
            lookup(self.keys@, key_bytes(presented), 0)
        }
    }

    /// What presenting this key leaves: a key that verified for the first time
    /// is remembered under its name, and nothing else changes.
    pub open spec fn after_verify(self, presented: Seq<char>, after: Auth) -> bool {
        let d = digest::sha256(key_bytes(presented));
        &&& after.keys == self.keys
        &&& after.admin_hash == self.admin_hash
        &&& after.admin_cache == self.admin_cache
        &&& if remembered(self.cache@, d, 0) is None && self.identifies(presented) is Some {
            &&& after.cache@.len() == self.cache@.len() + 1
            &&& after.cache@.drop_last() == self.cache@
            &&& after.cache@.last().digest@ == d
            &&& Some(after.cache@.last().name@) == self.identifies(presented)
        } else {
            after.cache == self.cache
        }
    }

    fn recall(&self, d: &[u8; 32]) -> (r: Option<String>)
        ensures
            text::opt_view(r) == remembered(self.cache@, d@, 0),
    {
        let mut i: usize = 0;
        while i < self.cache.len()
            invariant
                i <= self.cache@.len(),
                remembered(self.cache@, d@, 0) == remembered(self.cache@, d@, i as int),
            decreases self.cache@.len() - i,
        {
            if digest::same_digest(&self.cache[i].digest, d) {
                return Some(self.cache[i].name.clone());
            }
            i = i + 1;
        }
        None
    }

    fn find_key(&self, presented: &str) -> (r: Option<String>)
        ensures
            text::opt_view(r) == lookup(self.keys@, key_bytes(presented@), 0),
    {
        let mut i: usize = 0;
        while i < self.keys.len()
            invariant
                i <= self.keys@.len(),
                lookup(self.keys@, key_bytes(presented@), 0) == lookup(
                    self.keys@,
                    key_bytes(presented@),
                    i as int,
                ),
            decreases self.keys@.len() - i,
        {
            if password_accepted(presented.as_bytes(), self.keys[i].phc.as_str()) {
                return Some(self.keys[i].name.clone());
            }
            i = i + 1;
        }
        None
    }

    /// Verifies a presented key; returns the key's configured name. A key
    /// that verifies is remembered.
    pub fn verify(&mut self, presented: &str) -> (r: Option<String>)
        requires
            old(self).wf(),
        ensures
            final(self).wf(),
            text::opt_view(r) == old(self).identifies(presented@),
            old(self).after_verify(presented@, *final(self)),
            r is Some ==> remembered(
                final(self).cache@,
                digest::sha256(key_bytes(presented@)),
                0,
            ) == text::opt_view(r),
    {
        let d: [u8; 32] = digest::sha256_of(presented.as_bytes());
        if let Some(name) = self.recall(&d) {
            return Some(name);
        }
        match self.find_key(presented) {
            None => None,
            Some(name) => {
                self.cache.push(CachedKey { digest: d, name: name.clone() });
                proof {
                    assert(old(self).cache@ =~= self.cache@.drop_last());
                    lemma_remembered_push(self.cache@, d@, 0);
                    assert(verified_before(self.keys@, self.cache@.last())) by {
                        assert(lookup(self.keys@, key_bytes(presented@), 0) == Some(
                            self.cache@.last().name@,
                        ));
                    }
                    assert forall|i: int| 0 <= i < self.cache@.len() implies verified_before(
                        self.keys@,
                        #[trigger] self.cache@[i],
                    ) by {
                        if i < old(self).cache@.len() {
                            assert(self.cache@[i] == old(self).cache@[i]);
                        }
                    }
                }
                Some(name)
            },
        }
    }

    /// Checks the credentials of a `/v1` request. `Ok(None)` when
    /// authentication is disabled, `Ok` with the key's name when it verified.
    pub fn authenticate(&mut self, presented: Option<&str>) -> (r: Result<Option<String>, ApiError>)
        requires
            old(self).wf(),
        ensures
            final(self).wf(),
            if presented is Some && old(self).keys@.len() > 0 {
                old(self).after_verify(presented->0@, *final(self))
            } else {
                *final(self) == *old(self)
            },
            match r {
                Ok(None) => old(self).keys@.len() == 0,
                Ok(Some(name)) => old(self).keys@.len() > 0 && presented is Some
                    && old(self).identifies(presented->0@) == Some(name@),
                Err(e) => old(self).keys@.len() > 0 && e@ == error::invalid_api_key() && (
                presented is None || old(self).identifies(presented->0@) is None),
            },
    {
        if !self.enabled() {
            return Ok(None);
        }
        match presented {
            None => Err(ApiError::invalid_api_key()),
            Some(key) => match self.verify(key) {
                Some(name) => Ok(Some(name)),
                None => Err(ApiError::invalid_api_key()),
            },
        }
    }

    /// Checks the credentials of an `/admin` request. Fails closed: 403 when
    /// no operator token is configured, 401 on a wrong or missing token.
    pub fn authorize_admin(&mut self, presented: Option<&str>) -> (r: Result<(), ApiError>)
        requires
            old(self).wf(),
        ensures
            final(self).wf(),
            if presented is Some && old(self).admin_hash is Some {
                old(self).after_admin(presented->0@, *final(self))
            } else {
                *final(self) == *old(self)
            },
            match r {
                Ok(()) => presented is Some && old(self).admits_admin(presented->0@),
                Err(e) => if old(self).admin_hash is None {
                    e@ == error::admin_disabled()
                } else {
                    e@ == error::invalid_api_key() && (presented is None || !old(
                        self,
                    ).admits_admin(presented->0@))
                },
            },
    {
        if !self.admin_enabled() {
            return Err(ApiError::admin_disabled());
        }
        match presented {
            None => Err(ApiError::invalid_api_key()),
            Some(token) => if self.verify_admin(token) {
                Ok(())
            } else {
                Err(ApiError::invalid_api_key())
            },
        }
    }
}

/// What is remembered last is found, unless something was before.
proof fn lemma_remembered_push(cache: Seq<CachedKey>, d: Seq<u8>, i: int)
    requires
        0 <= i < cache.len(),
        cache.last().digest@ == d,
        remembered(cache.drop_last(), d, i) is None,
    ensures
        remembered(cache, d, i) == Some(cache.last().name@),
    decreases cache.len() - i,
{
    if i < cache.len() - 1 {
        assert(cache.drop_last()[i] == cache[i]);
        lemma_remembered_push(cache, d, i + 1);
    }
}

/// The part of the header value behind `Bearer `, if it starts with that.
pub open spec fn bearer(value: Seq<char>) -> Option<Seq<char>> {
    if value.len() >= "Bearer "@.len() && value.subrange(0, "Bearer "@.len() as int)
        == "Bearer "@ {
        Some(value.subrange("Bearer "@.len() as int, value.len() as int))
    } else {
        None
    }
}

/// The presented key: `Authorization: Bearer` or `x-api-key`. Both are
/// accepted on every authenticated route.
pub fn presented_key(authorization: Option<&str>, x_api_key: Option<&str>) -> (r: Option<String>)
    ensures
        text::opt_view(r) == (if authorization is Some && bearer(authorization->0@) is Some {
            bearer(authorization->0@)
        } else {
            match x_api_key {
                Some(key) => Some(key@),
                None => None,
            }
        }),
{
    if let Some(value) = authorization {
        if text::has_prefix(value, "Bearer ") {
            let v: Vec<char> = text::chars_of(value);
            let n: usize = text::chars_of("Bearer ").len();
            return Some(text::string_of_range(&v, n, v.len()));
        }
    }
    match x_api_key {
        Some(key) => Some(key.to_owned()),
        None => None,
    }
}

/// A line without the line ends behind it.
pub open spec fn without_line_end(line: Seq<char>) -> Seq<char>
    decreases line.len(),
{
    if line.len() > 0 && (line.last() == '\n' || line.last() == '\r') {
        without_line_end(line.drop_last())
    } else {
        line
    }
}

/// The key in a line of input: the line without the line ends behind it.
pub fn key_of_line(line: &str) -> (r: String)
    ensures
        r@ == without_line_end(line@),
{
    let v: Vec<char> = text::chars_of(line);
    let mut n: usize = v.len();
    assert(v@.take(n as int) =~= v@);
    while n > 0 && (v[n - 1] == '\n' || v[n - 1] == '\r')
        invariant
            n <= v@.len(),
            v@ == line@,
            without_line_end(line@) == without_line_end(v@.take(n as int)),
        decreases n,
    {
        assert(v@.take(n as int).drop_last() =~= v@.take(n - 1));
        n = n - 1;
    }
    assert(v@.subrange(0, n as int) =~= v@.take(n as int));
    text::string_of_range(&v, 0, n)
}

/// Why a key was not hashed.
#[derive(Debug, Clone, Copy, PartialEq, Eq, Structural)]
pub enum HashKeyError {
    /// An empty key is refused.
    Empty,
    /// The hash function did not accept the salt or the key.
    Hashing,
}

/// The PHC string of a key for `kiln.toml`.
pub fn hash_key(key: &str, salt: &str) -> (r: Result<String, HashKeyError>)
    ensures
        match r {
            Ok(phc) => key@.len() > 0 && argon2_hash(key_bytes(key@), salt@) == Some(phc@)
                && phc@.len() > 0 && accepts(key_bytes(key@), phc@),
            Err(HashKeyError::Empty) => key@.len() == 0,
            Err(HashKeyError::Hashing) => key@.len() > 0 && argon2_hash(
                key_bytes(key@),
                salt@,
            ) is None,
        },
{
    if key.is_empty() {
        return Err(HashKeyError::Empty);
    }
    match hash_password(key.as_bytes(), salt) {
        Some(phc) => Ok(phc),
        None => Err(HashKeyError::Hashing),
    }
}

/// A key in the first of several stored hashes verifies under its name.
proof fn lemma_lookup_finds(keys: Seq<StoredKey>, password: Seq<u8>, i: int, j: int)
    requires
        0 <= i <= j < keys.len(),
        accepts(password, keys[j].phc@),
    ensures
        lookup(keys, password, i) is Some,
    decreases keys.len() - i,
{
    if i < j && !accepts(password, keys[i].phc@) {
        lemma_lookup_finds(keys, password, i + 1, j);
    }
}

/// A key whose hash is stored is always let in, and a key that matches no
/// stored hash and shares its digest with none that did is always kept out.
pub proof fn law_stored_keys_and_no_others_are_let_in(auth: Auth, presented: Seq<char>, j: int)
    requires
        auth.wf(),
    ensures
        0 <= j < auth.keys@.len() && accepts(
            key_bytes(presented),
            auth.keys@[j].phc@,
        ) ==> auth.identifies(presented) is Some,
        (forall|key: Seq<u8>|
            digest::sha256(key) == digest::sha256(key_bytes(presented)) ==> lookup(
                auth.keys@,
                key,
                0,
            ) is None) ==> auth.identifies(presented) is None,
{
    if 0 <= j < auth.keys@.len() && accepts(key_bytes(presented), auth.keys@[j].phc@) {
        lemma_lookup_finds(auth.keys@, key_bytes(presented), 0, j);
    }
    let d = digest::sha256(key_bytes(presented));
    if remembered(auth.cache@, d, 0) is Some {
        lemma_remembered_is_wf(auth, d, 0);
    }
}

/// A remembered name belongs to a key with that digest that verified.
proof fn lemma_remembered_is_wf(auth: Auth, d: Seq<u8>, i: int)
    requires
        auth.wf(),
        0 <= i,
        remembered(auth.cache@, d, i) is Some,
    ensures
        exists|key: Seq<u8>|
            digest::sha256(key) == d && #[trigger] lookup(auth.keys@, key, 0) == remembered(
                auth.cache@,
                d,
                i,
            ),
    decreases auth.cache@.len() - i,
{
    if auth.cache@[i].digest@ != d {
        lemma_remembered_is_wf(auth, d, i + 1);
    } else {
        let key = choose|key: Seq<u8>|
            digest::sha256(key) == auth.cache@[i].digest@ && #[trigger] lookup(
                auth.keys@,
                key,
                0,
            ) == Some(auth.cache@[i].name@);
        assert(lookup(auth.keys@, key, 0) == remembered(auth.cache@, d, i));
    }
}

/// Remembering a key changes no answer: where keys with one digest have one
/// name, the answer is that of verifying the key afresh.
pub proof fn law_remembering_keys_changes_no_answer(auth: Auth, presented: Seq<char>)
    requires
        auth.wf(),
        forall|key: Seq<u8>|
            digest::sha256(key) == digest::sha256(key_bytes(presented)) ==> #[trigger] lookup(
                auth.keys@,
                key,
                0,
            ) == lookup(auth.keys@, key_bytes(presented), 0),
    ensures
        auth.identifies(presented) == lookup(auth.keys@, key_bytes(presented), 0),
{
    let d = digest::sha256(key_bytes(presented));
    if remembered(auth.cache@, d, 0) is Some {
        lemma_remembered_is_wf(auth, d, 0);
    }
}

/// Without a configured operator token nobody is admin, whatever is presented
/// and whatever API keys there are.
pub proof fn law_admin_fails_closed(auth: Auth, presented: Seq<char>)
    requires
        auth.admin_hash is None,
    ensures
        !auth.admits_admin(presented),
{
}

/// A key that does not match the operator's hash, and shares its digest with
/// none that does, is not admin: being an API key is not enough.
pub proof fn law_api_keys_never_grant_admin(auth: Auth, presented: Seq<char>)
    requires
        auth.wf(),
        auth.admin_hash is Some ==> forall|key: Seq<u8>|
            digest::sha256(key) == digest::sha256(key_bytes(presented))
                ==> !#[trigger] accepts(key, auth.admin_hash->0@),
    ensures
        !auth.admits_admin(presented),
{
}

/// The last lanes that were named count, other parameters do not, and one lane is the
/// default.
pub proof fn law_the_last_lanes_count(
    pairs: Seq<(Seq<char>, Option<u32>)>,
    name: Seq<char>,
    n: u32,
)
    ensures
        lanes(Seq::empty()) == 1,
        lanes(pairs.push(("p"@, Some(n)))) == n,
        lanes(pairs.push(("p"@, None))) == lanes(pairs),
        name != "p"@ ==> lanes(pairs.push((name, Some(n)))) == lanes(pairs),
{
    assert(pairs.push(("p"@, Some(n))).drop_last() =~= pairs);
    assert(pairs.push(("p"@, None)).drop_last() =~= pairs);
    assert(pairs.push((name, Some(n))).drop_last() =~= pairs);
}

/// A PHC string accepts what argon2 accepts for it, as long as it parses and argon2 can
/// count its lanes, of which each takes eight blocks at least.
pub proof fn law_hashes_accept_what_argon2_accepts(password: Seq<u8>, phc: Seq<char>)
    ensures
        accepts(password, phc) ==> phc_valid(phc) && password_matches(password, phc),
        accepts(password, phc) ==> 8 * lanes(phc_pairs(phc)) <= u32::MAX,
        phc_valid(phc) && password_matches(password, phc) && 8 * lanes(phc_pairs(phc))
            <= u32::MAX ==> accepts(password, phc),
{
}

/// The configured keys that can be used are those with a hash that parses, in order.
pub proof fn law_keys_with_a_hash_are_usable(keys: Seq<ApiKeyConfig>, key: ApiKeyConfig)
    ensures
        usable(Seq::empty()).len() == 0,
        key.key_hash@.len() > 0 && phc_valid(key.key_hash@) ==> usable(keys.push(key)) == usable(
            keys,
        ).push(key),
        key.key_hash@.len() == 0 ==> usable(keys.push(key)) == usable(keys),
        !phc_valid(key.key_hash@) ==> usable(keys.push(key)) == usable(keys),
{
    assert(keys.push(key).drop_last() =~= keys);
}

proof fn lemma_lookup_first(keys: Seq<StoredKey>, password: Seq<u8>, i: int, j: int)
    requires
        0 <= i <= j <= keys.len(),
        forall|k: int| 0 <= k < j ==> !accepts(password, (#[trigger] keys[k]).phc@),
        j < keys.len() ==> accepts(password, keys[j].phc@),
    ensures
        lookup(keys, password, i) == (if j < keys.len() {
            Some(keys[j].name@)
        } else {
            None
        }),
    decreases j - i,
{
    if i < j {
        assert(!accepts(password, keys[i].phc@));
        lemma_lookup_first(keys, password, i + 1, j);
    }
}

/// A key goes by the name of the first stored hash that accepts it, and by none where
/// no hash does.
pub proof fn law_the_first_matching_hash_names_the_key(
    keys: Seq<StoredKey>,
    password: Seq<u8>,
    j: int,
)
    requires
        0 <= j <= keys.len(),
        forall|k: int| 0 <= k < j ==> !accepts(password, (#[trigger] keys[k]).phc@),
    ensures
        j == keys.len() ==> lookup(keys, password, 0) is None,
        j < keys.len() && accepts(password, keys[j].phc@) ==> lookup(keys, password, 0) == Some(
            keys[j].name@,
        ),
{
    if j == keys.len() || accepts(password, keys[j].phc@) {
        lemma_lookup_first(keys, password, 0, j);
    }
}

proof fn lemma_remembered_first(cache: Seq<CachedKey>, d: Seq<u8>, i: int, j: int)
    requires
        0 <= i <= j <= cache.len(),
        forall|k: int| 0 <= k < j ==> (#[trigger] cache[k]).digest@ != d,
        j < cache.len() ==> cache[j].digest@ == d,
    ensures
        remembered(cache, d, i) == (if j < cache.len() {
            Some(cache[j].name@)
        } else {
            None
        }),
    decreases j - i,
{
    if i < j {
        assert(cache[i].digest@ != d);
        lemma_remembered_first(cache, d, i + 1, j);
    }
}

/// A digest is remembered under the name it was first remembered under, and only a
/// digest that equals is found.
pub proof fn law_digests_are_remembered_by_name(cache: Seq<CachedKey>, d: Seq<u8>, j: int)
    requires
        0 <= j <= cache.len(),
        forall|k: int| 0 <= k < j ==> (#[trigger] cache[k]).digest@ != d,
    ensures
        j == cache.len() ==> remembered(cache, d, 0) is None,
        j < cache.len() && cache[j].digest@ == d ==> remembered(cache, d, 0) == Some(
            cache[j].name@,
        ),
{
    if j == cache.len() || cache[j].digest@ == d {
        lemma_remembered_first(cache, d, 0, j);
    }
}

/// A presented key goes by its remembered name, or else by that of the stored hash that
/// accepts its bytes.
pub proof fn law_keys_go_by_their_names(auth: Auth, presented: Seq<char>)
    ensures
        ({
            let bytes = vstd::utf8::encode_utf8(presented);
            let known = remembered(auth.cache@, digest::sha256(bytes), 0);
            &&& known is Some ==> auth.identifies(presented) == known
            &&& known is None ==> auth.identifies(presented) == lookup(auth.keys@, bytes, 0)
        }),
{
}

/// Presenting a key changes no key and nothing of the operator; a key that verifies for
/// the first time is remembered by its digest under its name, and nothing else is.
pub proof fn law_only_verified_keys_are_remembered(auth: Auth, presented: Seq<char>, after: Auth)
    requires
        auth.after_verify(presented, after),
    ensures
        after.keys == auth.keys,
        after.admin_hash == auth.admin_hash,
        after.admin_cache == auth.admin_cache,
        auth.identifies(presented) is None ==> after.cache == auth.cache,
        ({
            let d = digest::sha256(vstd::utf8::encode_utf8(presented));
            let known = remembered(auth.cache@, d, 0);
            &&& known is Some ==> after.cache == auth.cache
            &&& known is None && auth.identifies(presented) is Some ==> {
                &&& after.cache@.len() == auth.cache@.len() + 1
                &&& after.cache@.last().digest@ == d
                &&& Some(after.cache@.last().name@) == auth.identifies(presented)
            }
        }),
{
}

/// A token is the operator's where its bytes match the configured hash or its digest is
/// the one that matched before; it is then remembered by its digest. A token that is
/// not changes nothing, and no token changes the keys.
pub proof fn law_operator_tokens_are_let_in(auth: Auth, presented: Seq<char>, after: Auth)
    requires
        auth.after_admin(presented, after),
    ensures
        auth.admin_hash is Some && accepts(
            vstd::utf8::encode_utf8(presented),
            auth.admin_hash->0@,
        ) ==> auth.admits_admin(presented),
        auth.admin_hash is Some && auth.admin_cache is Some && auth.admin_cache->0@
            == digest::sha256(vstd::utf8::encode_utf8(presented)) ==> auth.admits_admin(presented),
        after.keys == auth.keys,
        after.cache == auth.cache,
        after.admin_hash == auth.admin_hash,
        auth.admits_admin(presented) ==> after.admin_cache is Some && after.admin_cache->0@
            == digest::sha256(vstd::utf8::encode_utf8(presented)),
        !auth.admits_admin(presented) ==> after.admin_cache == auth.admin_cache,
{
}

/// The key of a bearer header is all that stands behind `Bearer ` and its one space; a
/// header that does not start so presents none.
pub proof fn law_bearer_keys_stand_behind_the_scheme(key: Seq<char>, value: Seq<char>)
    ensures
        bearer("Bearer "@ + key) == Some(key),
        bearer(value) is Some ==> value == "Bearer "@ + bearer(value)->0,
{
    let n = "Bearer "@.len() as int;
    let whole = "Bearer "@ + key;
    assert(whole.subrange(0, n) =~= "Bearer "@);
    assert(whole.subrange(n, whole.len() as int) =~= key);
    if bearer(value) is Some {
        assert(value =~= "Bearer "@ + value.subrange(n, value.len() as int)) by {
            assert forall|i: int| 0 <= i < n implies value[i] == "Bearer "@[i] by {
                assert(value.subrange(0, n)[i] == "Bearer "@[i]);
            }
        }
    }
}

/// The key of a line is the line up to the line ends behind it: it is the start of the
/// line, it does not end in a line end, and only line ends are left out.
pub proof fn law_keys_end_before_the_line_end(line: Seq<char>)
    ensures
        ({
            let key = without_line_end(line);
            &&& key.len() <= line.len()
            &&& line.take(key.len() as int) == key
            &&& key.len() > 0 ==> key.last() != '\n' && key.last() != '\r'
            &&& forall|i: int|
                key.len() <= i < line.len() ==> #[trigger] line[i] == '\n' || line[i] == '\r'
        }),
    decreases line.len(),
{
    let key = without_line_end(line);
    if line.len() > 0 && (line.last() == '\n' || line.last() == '\r') {
        law_keys_end_before_the_line_end(line.drop_last());
        assert(line.take(key.len() as int) =~= line.drop_last().take(key.len() as int));
        assert forall|i: int| key.len() <= i < line.len() implies #[trigger] line[i] == '\n'
            || line[i] == '\r' by {
            if i < line.len() - 1 {
                assert(line.drop_last()[i] == line[i]);
            }
        }
    } else {
        assert(line.take(key.len() as int) =~= line);
    }
}

/// What is remembered stays remembered: presenting a key forgets no other.
pub proof fn law_remembered_keys_stay(auth: Auth, presented: Seq<char>, after: Auth, i: int)
    requires
        auth.after_verify(presented, after),
        0 <= i < auth.cache@.len(),
    ensures
        after.cache@.len() >= auth.cache@.len(),
        after.cache@[i] == auth.cache@[i],
{
    if after.cache != auth.cache {
        assert(after.cache@.drop_last()[i] == after.cache@[i]);
    }
}

} // verus!
