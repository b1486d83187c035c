//! Pairing a controller with an agent, and the tokens that authorize it
//! afterwards.

use crate::outside::{bytes_equal_ct, fill_random, random_error_text, sha256};
use crate::remote_model::hex_digest_text;
use crate::text::{any_control, blank, concat, has_control, hex_lower, hex_text, is_blank, owned, same_text, utf8_len, byte_len};
use vstd::prelude::*;

verus! {

broadcast use vstd::string::group_string_axioms;

/// Whether a text is lower-case hexadecimal.
pub open spec fn lower_hex(s: Seq<char>) -> bool {
    forall|i: int| 0 <= i < s.len() ==> ('0' <= #[trigger] s[i] && s[i] <= '9') || ('a' <= s[i] && s[i] <= 'f')
}

proof fn hex_text_is_lower_hex(b: Seq<u8>)
    ensures
        lower_hex(hex_text(b)),
        hex_text(b).len() == 2 * b.len(),
    decreases b.len(),
{
    if b.len() > 0 {
        hex_text_is_lower_hex(b.drop_last());
        let h = hex_text(b);
        let p = hex_text(b.drop_last());
        assert forall|i: int| 0 <= i < h.len() implies ('0' <= #[trigger] h[i] && h[i] <= '9') || ('a' <= h[i] && h[i] <= 'f') by {
            if i >= p.len() {
                let n: u8 = if i == p.len() { b.last() / 16 } else { b.last() % 16 };
                assert(h[i] == crate::text::hex_digit(n));
            } else {
                assert(h[i] == p[i]);
            }
        }
    }
}

/// 32 random bytes as 64 lower-case hex characters: the pairing secrets and
/// controller tokens. The value is chance; what holds of every outcome is
/// stated.
pub fn random_secret() -> (r: Result<String, String>)
    ensures
        r matches Ok(s) ==> s@.len() == 64 && lower_hex(s@),
        r matches Err(e) ==> "RANDOM_UNAVAILABLE: "@.is_prefix_of(e@),
{
    let mut bytes: Vec<u8> = Vec::new();
    let mut i: usize = 0;
    while i < 32
        invariant
            i <= 32,
            bytes@.len() == i,
        decreases 32 - i,
    {
        bytes.push(0u8);
        i += 1;
    }
    match fill_random(&mut bytes) {
        Ok(()) => {
            let s = hex_lower(bytes.as_slice());
            proof {
                hex_text_is_lower_hex(bytes@);
            }
            Ok(s)
        },
        Err(e) => {
            let text = random_error_text(&e);
            let message = concat("RANDOM_UNAVAILABLE: ", text.as_str());
            assert("RANDOM_UNAVAILABLE: "@.is_prefix_of(message@)) by {
                assert(message@.subrange(0, "RANDOM_UNAVAILABLE: "@.len() as int) =~= "RANDOM_UNAVAILABLE: "@);
            }
            Err(message)
        },
    }
}

/// A pairing offer's session: shown once to the owner, valid five minutes.
#[derive(Debug, Clone)]
pub struct PairingSession {
    pub id: String,
    pub secret: String,
    pub expires_at: i64,
}

impl PairingSession {
    /// A session created at `now` (seconds): it expires 300 seconds later.
    pub fn new(id: String, secret: String, now: i64) -> (s: PairingSession)
        requires
            now <= i64::MAX - 300,
        ensures
            s.id@ == id@,
            s.secret@ == secret@,
            s.expires_at == now + 300,
    {
        PairingSession { id, secret, expires_at: now + 300 }
    }
}

/// What a controller sends to pair.
#[derive(Debug, Clone)]
pub struct PairRequest {
    pub session_id: String,
    pub secret: String,
    pub controller_name: String,
}

/// A pair request of acceptable shape: a controller name that is not blank,
/// at most 120 characters and free of control characters; a secret of at
/// most 128 bytes and a session id of at most 64 bytes.
pub open spec fn pair_request_ok(name: Seq<char>, secret: Seq<char>, session: Seq<char>) -> bool {
    !is_blank(name) && name.len() <= 120 && !has_control(name) && byte_len(secret) <= 128 && byte_len(session) <= 64
}

impl PairRequest {
    /// The shape check `pair` makes before it looks the session up.
    pub fn check(&self) -> (r: Result<(), String>)
        ensures
            r is Ok <==> pair_request_ok(self.controller_name@, self.secret@, self.session_id@),
            r matches Err(e) ==> e@ == "INVALID_PAIR_REQUEST"@,
    {
        if blank(self.controller_name.as_str()) || self.controller_name.as_str().unicode_len() > 120
            || any_control(self.controller_name.as_str()) || utf8_len(self.secret.as_str()) > 128
            || utf8_len(self.session_id.as_str()) > 64 {
            return Err(owned("INVALID_PAIR_REQUEST"));
        }
        Ok(())
    }
}

/// What the agent answers a successful pairing.
#[derive(Debug, Clone)]
pub struct PairResponse {
    pub controller_id: String,
    pub token: String,
}

/// A controller the agent has authorized.
#[derive(Debug, Clone)]
pub struct AuthorizedController {
    pub id: String,
    pub name: String,
    pub created_at: String,
    pub revoked_at: Option<String>,
}

/// A stored pairing session: the hash of its secret, its expiry, the
/// failed attempts so far and whether it was used.
#[derive(Debug, Clone)]
pub struct PairingRecord {
    pub id: String,
    pub secret_hash: String,
    pub expires_at: i64,
    pub attempts: i64,
    pub consumed: bool,
}

/// A stored pairing session as plain values.
pub struct PairingState {
    pub id: Seq<char>,
    pub secret_hash: Seq<char>,
    pub expires_at: i64,
    pub attempts: i64,
    pub consumed: bool,
}

impl View for PairingRecord {
    type V = PairingState;

    open spec fn view(&self) -> PairingState {
        PairingState {
            id: self.id@,
            secret_hash: self.secret_hash@,
            expires_at: self.expires_at,
            attempts: self.attempts,
            consumed: self.consumed,
        }
    }
}

/// At most this many wrong secrets are tried against one session.
pub const MAX_PAIRING_ATTEMPTS: i64 = 5;

/// Whether a session still accepts an attempt at time `now`.
pub open spec fn pairing_open(r: PairingState, now: i64) -> bool {
    !r.consumed && r.attempts < MAX_PAIRING_ATTEMPTS && now < r.expires_at
}

/// One pairing attempt with the hash of a candidate secret at time `now`:
/// the new record and the outcome. A used, exhausted or expired session
/// refuses and is unchanged; a wrong secret counts one more failure; the
/// right secret uses the session.
pub open spec fn pairing_attempt(r: PairingState, candidate_hash: Seq<char>, now: i64) -> (PairingState, Result<(), Seq<char>>) {
    if !pairing_open(r, now) {
        (r, Err("PAIRING_EXPIRED_OR_USED"@))
    } else if candidate_hash != r.secret_hash {
        (PairingState { attempts: (r.attempts + 1) as i64, ..r }, Err("PAIRING_INVALID"@))
    } else {
        (PairingState { consumed: true, ..r }, Ok(()))
    }
}

impl PairingRecord {
    /// A fresh session record: no attempts, not used.
    pub fn fresh(id: String, secret_hash: String, expires_at: i64) -> (r: PairingRecord)
        ensures
            r@ == (PairingState { id: id@, secret_hash: secret_hash@, expires_at, attempts: 0, consumed: false }),
    {
        PairingRecord { id, secret_hash, expires_at, attempts: 0, consumed: false }
    }

    /// `pair`'s decision for the stored session: the hash of the offered
    /// secret is compared in constant time (see `pairing_attempt`).
    pub fn attempt(self, secret: &str, now: i64) -> (r: (PairingRecord, Result<(), String>))
        ensures
            r.0@ == pairing_attempt(self@, crate::text::hex_text(crate::outside::sha256(vstd::utf8::encode_utf8(secret@))), now).0,
            match (r.1, pairing_attempt(self@, crate::text::hex_text(crate::outside::sha256(vstd::utf8::encode_utf8(secret@))), now).1) {
                (Ok(()), Ok(())) => true,
                (Err(a), Err(b)) => a@ == b,
                _ => false,
            },
    {
        if self.consumed || self.attempts >= MAX_PAIRING_ATTEMPTS || self.expires_at <= now {
            return (self, Err(owned("PAIRING_EXPIRED_OR_USED")));
        }
        let candidate = hex_digest_text(secret);
        let same = bytes_equal_ct(self.secret_hash.as_str().as_bytes(), candidate.as_str().as_bytes());
        proof {
            vstd::utf8::encode_utf8_decode_utf8(self.secret_hash@);
            vstd::utf8::encode_utf8_decode_utf8(candidate@);
        }
        let mut r = self;
        if !same {
            r.attempts = r.attempts + 1;
            return (r, Err(owned("PAIRING_INVALID")));
        }
        r.consumed = true;
        (r, Ok(()))
    }
}

/// A controller token of the right shape: 64 bytes.
pub fn check_token(token: &str) -> (r: Result<(), String>)
    ensures
        r is Ok <==> byte_len(token@) == 64,
        r matches Err(e) ==> e@ == "UNAUTHORIZED"@,
{
    if utf8_len(token) != 64 {
        return Err(owned("UNAUTHORIZED"));
    }
    Ok(())
}

/// A controller as the agent's table holds it: its id, the hex SHA-256 of
/// its token, and whether it was revoked.
#[derive(Debug, Clone)]
pub struct ControllerEntry {
    pub id: String,
    pub token_hash: String,
    pub revoked: bool,
}

/// The digest a token is stored and looked up by: the hex SHA-256 of its
/// UTF-8 bytes.
pub open spec fn token_digest(token: Seq<char>) -> Seq<char> {
    hex_text(sha256(vstd::utf8::encode_utf8(token)))
}

/// Whether `e` is a controller that `token` authenticates: not revoked, and
/// holding the token's digest.
pub open spec fn admits(e: ControllerEntry, token: Seq<char>) -> bool {
    !e.revoked && e.token_hash@ == token_digest(token)
}

/// The controller a token authenticates in a table: the first entry that
/// admits it, if any.
pub open spec fn authorized_id(token: Seq<char>, table: Seq<ControllerEntry>) -> Option<Seq<char>>
    decreases table.len(),
{
    if table.len() == 0 {
        None
    } else if admits(table[0], token) {
        Some(table[0].id@)
    } else {
        authorized_id(token, table.drop_first())
    }
}

/// `authenticate`: a token of 64 bytes held by a controller that was not
/// revoked gives that controller's id; anything else is `UNAUTHORIZED`.
pub fn authenticate(token: &str, table: &Vec<ControllerEntry>) -> (r: Result<String, String>)
    ensures
        byte_len(token@) != 64 ==> (r matches Err(e) && e@ == "UNAUTHORIZED"@),
        byte_len(token@) == 64 ==> match authorized_id(token@, table@) {
            Some(id) => r matches Ok(got) && got@ == id,
            None => r matches Err(e) && e@ == "UNAUTHORIZED"@,
        },
{
    check_token(token)?;
    let digest = hex_digest_text(token);
    let mut i: usize = 0;
    assert(table@.skip(0) =~= table@);
    while i < table.len()
        invariant
            i <= table.len(),
            byte_len(token@) == 64,
            digest@ == token_digest(token@),
            authorized_id(token@, table@) == authorized_id(token@, table@.skip(i as int)),
        decreases table.len() - i,
    {
        let ghost rest = table@.skip(i as int);
        assert(rest.drop_first() =~= table@.skip(i + 1));
        assert(rest[0] == table@[i as int]);
        if !table[i].revoked && same_text(table[i].token_hash.as_str(), digest.as_str()) {
            return Ok(table[i].id.clone());
        }
        i += 1;
    }
    assert(table@.skip(i as int) =~= Seq::<ControllerEntry>::empty());
    Err(owned("UNAUTHORIZED"))
}

/// The table after revoking controller `id`: every entry of it is revoked,
/// the others are unchanged.
pub open spec fn revoked_table(table: Seq<ControllerEntry>, id: Seq<char>) -> Seq<ControllerEntry> {
    table.map_values(|e: ControllerEntry| if e.id@ == id { ControllerEntry { revoked: true, ..e } } else { e })
}

/// `revoke`: controller `id` is revoked, or `CONTROLLER_NOT_FOUND` where
/// the table has no such controller. Revoking twice is allowed.
pub fn revoke(table: Vec<ControllerEntry>, id: &str) -> (r: Result<Vec<ControllerEntry>, String>)
    ensures
        r is Ok <==> exists|i: int| 0 <= i < table@.len() && (#[trigger] table@[i]).id@ == id@,
        r matches Ok(t) ==> t@.len() == table@.len() && forall|i: int| 0 <= i < t@.len() ==>
            (#[trigger] t@[i]).id@ == revoked_table(table@, id@)[i].id@
            && t@[i].token_hash@ == revoked_table(table@, id@)[i].token_hash@
            && t@[i].revoked == revoked_table(table@, id@)[i].revoked,
        r matches Err(e) ==> e@ == "CONTROLLER_NOT_FOUND"@,
{
    let mut out: Vec<ControllerEntry> = Vec::new();
    let mut found = false;
    let mut i: usize = 0;
    while i < table.len()
        invariant
            i <= table.len(),
            out@.len() == i,
            found <==> exists|k: int| 0 <= k < i && (#[trigger] table@[k]).id@ == id@,
            forall|k: int| 0 <= k < i ==>
                (#[trigger] out@[k]).id@ == revoked_table(table@, id@)[k].id@
                && out@[k].token_hash@ == revoked_table(table@, id@)[k].token_hash@
                && out@[k].revoked == revoked_table(table@, id@)[k].revoked,
        decreases table.len() - i,
    {
        let e = &table[i];
        let hit = same_text(e.id.as_str(), id);
        let entry = ControllerEntry { id: e.id.clone(), token_hash: e.token_hash.clone(), revoked: e.revoked || hit };
        out.push(entry);
        if hit {
            found = true;
        }
        i += 1;
    }
    if !found {
        return Err(owned("CONTROLLER_NOT_FOUND"));
    }
    Ok(out)
}

/// Revocation is final: after controller `id` is revoked, no token
/// authenticates it, not even its own.
pub proof fn revoked_controllers_are_refused(token: Seq<char>, table: Seq<ControllerEntry>, id: Seq<char>)
    ensures
        authorized_id(token, revoked_table(table, id)) != Some(id),
    decreases table.len(),
{
    if table.len() > 0 {
        let t = revoked_table(table, id);
        assert(t.drop_first() =~= revoked_table(table.drop_first(), id));
        revoked_controllers_are_refused(token, table.drop_first(), id);
    }
}

/// A paired token authenticates its controller: once the entry made at
/// pairing is in the table, and no earlier active entry holds the same
/// digest, the token gives that entry's id.
pub proof fn paired_tokens_authenticate(token: Seq<char>, table: Seq<ControllerEntry>, entry: ControllerEntry)
    requires
        admits(entry, token),
        forall|i: int| 0 <= i < table.len() ==> !admits(#[trigger] table[i], token),
    ensures
        authorized_id(token, table.push(entry)) == Some(entry.id@),
    decreases table.len(),
{
    if table.len() == 0 {
        assert(table.push(entry)[0] == entry);
    } else {
        assert(!admits(table[0], token));
        assert(table.push(entry)[0] == table[0]);
        assert(table.push(entry).drop_first() =~= table.drop_first().push(entry));
        assert forall|i: int| 0 <= i < table.drop_first().len() implies !admits(#[trigger] table.drop_first()[i], token) by {
            assert(table.drop_first()[i] == table[i + 1]);
        }
        paired_tokens_authenticate(token, table.drop_first(), entry);
    }
}

/// A pairing session is used once: after a successful attempt, every later
/// attempt is refused, whatever secret it offers.
pub proof fn pairing_is_single_use(r: PairingState, first: Seq<char>, t1: i64, second: Seq<char>, t2: i64)
    requires
        pairing_attempt(r, first, t1).1 is Ok,
    ensures
        pairing_attempt(pairing_attempt(r, first, t1).0, second, t2).1 is Err,
{
}

/// Only the session's own secret succeeds, and only before it expires.
pub proof fn pairing_needs_the_secret_in_time(r: PairingState, candidate: Seq<char>, now: i64)
    requires
        pairing_attempt(r, candidate, now).1 is Ok,
    ensures
        candidate == r.secret_hash,
        now < r.expires_at,
        !r.consumed,
{
}

/// After five wrong secrets a session is closed: the right secret, offered
/// after them, is refused as well.
pub proof fn five_wrong_secrets_close_the_session(r: PairingState, wrong: Seq<Seq<char>>, times: Seq<i64>, right_time: i64)
    requires
        r.attempts == 0,
        !r.consumed,
        wrong.len() == 5,
        times.len() == 5,
        forall|i: int| 0 <= i < 5 ==> #[trigger] wrong[i] != r.secret_hash,
        forall|i: int, j: int| 0 <= i <= j < 5 ==> #[trigger] times[i] <= #[trigger] times[j],
        times[4] <= right_time,
    ensures
        ({
            let s1 = pairing_attempt(r, wrong[0], times[0]).0;
            let s2 = pairing_attempt(s1, wrong[1], times[1]).0;
            let s3 = pairing_attempt(s2, wrong[2], times[2]).0;
            let s4 = pairing_attempt(s3, wrong[3], times[3]).0;
            let s5 = pairing_attempt(s4, wrong[4], times[4]).0;
            pairing_attempt(s5, r.secret_hash, right_time).1 is Err
        }),
{
    let s1 = pairing_attempt(r, wrong[0], times[0]).0;
    let s2 = pairing_attempt(s1, wrong[1], times[1]).0;
    let s3 = pairing_attempt(s2, wrong[2], times[2]).0;
    let s4 = pairing_attempt(s3, wrong[3], times[3]).0;
    let s5 = pairing_attempt(s4, wrong[4], times[4]).0;
    assert(wrong[0] != r.secret_hash);
    assert(wrong[1] != r.secret_hash);
    assert(wrong[2] != r.secret_hash);
    assert(wrong[3] != r.secret_hash);
    assert(wrong[4] != r.secret_hash);
    assert(s5.secret_hash == r.secret_hash && !s5.consumed && s5.expires_at == r.expires_at);
    assert(times[0] <= times[1] && times[1] <= times[2] && times[2] <= times[3] && times[3] <= times[4]);
    assert(s1.attempts == 1 || r.expires_at <= times[0]);
    assert(s2.attempts == 2 || r.expires_at <= times[1]);
    assert(s3.attempts == 3 || r.expires_at <= times[2]);
    assert(s4.attempts == 4 || r.expires_at <= times[3]);
    assert(s5.attempts == 5 || r.expires_at <= times[4]);
}

/// Revoking one controller touches no other: every entry with another id
/// keeps its revocation, and a token that authenticated another controller
/// still authenticates it.
pub proof fn revoking_one_controller_keeps_the_others(token: Seq<char>, table: Seq<ControllerEntry>, id: Seq<char>)
    ensures
        revoked_table(table, id).len() == table.len(),
        forall|i: int| 0 <= i < table.len() && (#[trigger] table[i]).id@ != id ==> revoked_table(table, id)[i].revoked
            == table[i].revoked && revoked_table(table, id)[i].token_hash == table[i].token_hash
            && revoked_table(table, id)[i].id == table[i].id,
        forall|i: int| 0 <= i < table.len() && (#[trigger] table[i]).id@ == id ==> revoked_table(table, id)[i].revoked,
        (authorized_id(token, table) matches Some(other) && other != id) ==> authorized_id(token, revoked_table(table, id))
            == authorized_id(token, table),
    decreases table.len(),
{
    if table.len() > 0 {
        let t = revoked_table(table, id);
        assert(t.drop_first() =~= revoked_table(table.drop_first(), id));
        revoking_one_controller_keeps_the_others(token, table.drop_first(), id);
    }
}

} // verus!
