//! The token service: stateless, signed, expiring session tokens.
//!
//! A token is a decimal-rendered keyed tag followed by fixed-width claim
//! fields and the subject's email: tamper-evident under a server-held
//! secret, and verifiable without a store round-trip.

use vstd::prelude::*;
use vstd::string::StrSliceExecFns;
use vstd::string::StringExecFns;

use crate::clock::current_time;
use crate::clock::day_after;
use crate::digits::dec_pad;
use crate::digits::digits_ok;
use crate::digits::enc_pad;
use crate::digits::lemma_dec_pad_digits;
use crate::digits::lemma_dec_pad_len;
use crate::digits::lemma_val_of_dec_pad;
use crate::digits::parse_digits_range;
use crate::digits::val_of_digits;
use crate::errors::AuthError;
use crate::user::User;
use crate::user::UserRole;

verus! {

/// The tag at the front of a token is a keyed polynomial checksum over a
/// prime modulus: any single-character change makes it fail, which gives
/// the tamper-evidence stated below. It is not a cryptographic MAC — the
/// keyed state is linearly malleable and recoverable from a known
/// token/tag pair — so a deployment that must resist a forging adversary
/// replaces the tag function with a cryptographic one at this seam.
///
/// The modulus of the keyed tag: the largest 64-bit prime.
pub const TAG_MODULUS: u64 = 0xFFFF_FFFF_FFFF_FFC5;

/// The initial state of the keyed tag.
pub const TAG_SEED: u64 = 0xcbf2_9ce4_8422_2325;

/// The decoded payload of a session token.
#[derive(Debug, Clone)]
pub struct Claims {
    /// The subject's identity.
    pub sub: u128,
    pub email: String,
    pub user_role: UserRole,
    /// Expiration time, seconds since the epoch.
    pub exp: i64,
    /// Issue time, seconds since the epoch.
    pub iat: i64,
}

/// The mathematical value of a claims payload.
#[verifier::ext_equal]
pub ghost struct ClaimsV {
    pub sub: u128,
    pub email: Seq<char>,
    pub user_role: UserRole,
    pub exp: i64,
    pub iat: i64,
}

impl View for Claims {
    type V = ClaimsV;

    open spec fn view(&self) -> ClaimsV {
        ClaimsV {
            sub: self.sub,
            email: self.email@,
            user_role: self.user_role,
            exp: self.exp,
            iat: self.iat,
        }
    }
}

/// Claims the token wire format can carry: non-negative timestamps.
pub open spec fn claims_wf(c: ClaimsV) -> bool {
    c.iat >= 0 && c.exp >= 0
}

/// The claims issued for user `u` at time `iat`: they expire 24 hours
/// later.
pub open spec fn claims_for(u: crate::user::UserV, iat: i64) -> ClaimsV {
    ClaimsV {
        sub: u.id,
        email: u.email,
        user_role: u.user_role,
        exp: day_after(iat),
        iat,
    }
}

impl Claims {
    /// Fresh claims for a user: issued now, expiring 24 hours later.
    pub fn new(user_id: u128, email: String, user_role: UserRole) -> (r: Self)
        ensures
            r.sub == user_id,
            r.email == email,
            r.user_role == user_role,
            r.iat >= 0,
            r.exp == day_after(r.iat),
    {
        let now = current_time();
        let exp: i64 = crate::clock::add_day(now);
        Claims { sub: user_id, email, user_role, exp, iat: now }
    }
}

/// One step of the keyed tag: absorb character `c`.
pub open spec fn mix(h: int, c: char) -> int {
    (h * 131 + c as int) % (TAG_MODULUS as int)
}

/// The keyed tag state after absorbing every character of `s`, from `h`.
pub open spec fn mix_seq(h: int, s: Seq<char>) -> int
    decreases s.len(),
{
    if s.len() == 0 {
        h
    } else {
        mix(mix_seq(h, s.drop_last()), s.last())
    }
}

/// The tag of a payload under a secret.
pub open spec fn tag_of(secret: Seq<char>, payload: Seq<char>) -> int {
    mix_seq(mix_seq(TAG_SEED as int, secret), payload)
}

pub proof fn lemma_mix_seq_bound(h: int, s: Seq<char>)
    requires
        0 <= h < TAG_MODULUS as int,
    ensures
        0 <= mix_seq(h, s) < TAG_MODULUS as int,
    decreases s.len(),
{
    if s.len() > 0 {
        lemma_mix_seq_bound(h, s.drop_last());
    }
}

pub proof fn lemma_tag_bound(secret: Seq<char>, payload: Seq<char>)
    ensures
        0 <= tag_of(secret, payload) < TAG_MODULUS as int,
{
    lemma_mix_seq_bound(TAG_SEED as int, secret);
    lemma_mix_seq_bound(mix_seq(TAG_SEED as int, secret), payload);
}

/// One exec step of the keyed tag.
fn mix_step(h: u64, c: char) -> (r: u64)
    requires
        h < TAG_MODULUS,
    ensures
        r as int == mix(h as int, c),
        r < TAG_MODULUS,
{
    let cu: u32 = c as u32;
    let wide: u128 = (h as u128) * 131 + (cu as u128);
    proof {
        assert((h as u128) * 131 < 0x1_0000_0000_0000_0000u128 * 131) by (nonlinear_arith)
            requires
                (h as u128) < 0x1_0000_0000_0000_0000u128,
        ;
    }
    let r: u128 = wide % (TAG_MODULUS as u128);
    r as u64
}

/// The keyed tag state after absorbing `s[from..to]`, starting from `h`.
fn mix_str(h: u64, s: &str, from: usize, to: usize) -> (r: u64)
    requires
        h < TAG_MODULUS,
        from <= to <= s@.len(),
    ensures
        r as int == mix_seq(h as int, s@.subrange(from as int, to as int)),
        r < TAG_MODULUS,
{
    let mut i: usize = from;
    let mut acc: u64 = h;
    while i < to
        invariant
            from <= i <= to <= s@.len(),
            acc < TAG_MODULUS,
            acc as int == mix_seq(h as int, s@.subrange(from as int, i as int)),
        decreases to - i,
    {
        let c = s.get_char(i);
        proof {
            let prefix1 = s@.subrange(from as int, i as int + 1);
            assert(prefix1.drop_last() =~= s@.subrange(from as int, i as int));
            assert(prefix1.last() == c);
        }
        acc = mix_step(acc, c);
        i = i + 1;
    }
    proof {
        assert(s@.subrange(from as int, i as int) =~= s@.subrange(from as int, to as int));
    }
    acc
}

/// The single character that names a role on the wire.
pub open spec fn role_char_of(role: UserRole) -> char {
    match role {
        UserRole::SuperAdmin => 's',
        UserRole::Admin => 'a',
        UserRole::Member => 'm',
        UserRole::Treasurer => 't',
    }
}

/// The role a wire character names, if any.
pub open spec fn role_of_char(c: char) -> Option<UserRole> {
    if c == 's' {
        Some(UserRole::SuperAdmin)
    } else if c == 'a' {
        Some(UserRole::Admin)
    } else if c == 'm' {
        Some(UserRole::Member)
    } else if c == 't' {
        Some(UserRole::Treasurer)
    } else {
        None
    }
}

/// The wire character of a role, as a one-character string slice.
fn role_str(role: UserRole) -> (r: &'static str)
    ensures
        r@.len() == 1,
        r@[0] == role_char_of(role),
{
    match role {
        UserRole::SuperAdmin => {
            proof {
                reveal_strlit("s");
            }
            "s"
        },
        UserRole::Admin => {
            proof {
                reveal_strlit("a");
            }
            "a"
        },
        UserRole::Member => {
            proof {
                reveal_strlit("m");
            }
            "m"
        },
        UserRole::Treasurer => {
            proof {
                reveal_strlit("t");
            }
            "t"
        },
    }
}

/// Parses a wire character back to a role.
fn role_from_char(c: char) -> (r: Option<UserRole>)
    ensures
        r == role_of_char(c),
{
    if c == 's' {
        Some(UserRole::SuperAdmin)
    } else if c == 'a' {
        Some(UserRole::Admin)
    } else if c == 'm' {
        Some(UserRole::Member)
    } else if c == 't' {
        Some(UserRole::Treasurer)
    } else {
        None
    }
}

/// The claim fields of a token, before the tag: 39 digits of subject, 19 of
/// issue time, 19 of expiry, one role character, then the email.
pub open spec fn payload_spec(c: ClaimsV) -> Seq<char> {
    dec_pad(c.sub as int, 39) + dec_pad(c.iat as int, 19) + dec_pad(c.exp as int, 19) + seq![
        role_char_of(c.user_role),
    ] + c.email
}

/// The full wire form of a token: a 20-digit keyed tag, then the payload.
pub open spec fn encode_spec(c: ClaimsV, secret: Seq<char>) -> Seq<char> {
    dec_pad(tag_of(secret, payload_spec(c)), 20) + payload_spec(c)
}

/// Encodes claims into the signed wire form.
pub fn encode_token(claims: &Claims, secret: &str) -> (r: String)
    requires
        claims_wf(claims@),
    ensures
        r@ == encode_spec(claims@, secret@),
{
    let mut payload = enc_pad(claims.sub, 39);
    let iat_part = enc_pad(claims.iat as u128, 19);
    payload.append(iat_part.as_str());
    let exp_part = enc_pad(claims.exp as u128, 19);
    payload.append(exp_part.as_str());
    payload.append(role_str(claims.user_role));
    payload.append(claims.email.as_str());
    proof {
        assert(payload@ =~= payload_spec(claims@));
    }
    let secret_len = secret.unicode_len();
    let payload_len = payload.as_str().unicode_len();
    let keyed = mix_str(TAG_SEED, secret, 0, secret_len);
    proof {
        assert(secret@.subrange(0, secret@.len() as int) =~= secret@);
    }
    let tag = mix_str(keyed, payload.as_str(), 0, payload_len);
    proof {
        assert(payload@.subrange(0, payload@.len() as int) =~= payload@);
    }
    let mut token = enc_pad(tag as u128, 20);
    token.append(payload.as_str());
    proof {
        assert(token@ =~= encode_spec(claims@, secret@));
    }
    token
}

/// What validating a token string yields: the decoded claims, a structural
/// or signature failure, or a past expiry.
#[verifier::ext_equal]
pub ghost enum TokenCheck {
    Valid(ClaimsV),
    Malformed,
    Expired,
}

/// The outcome of validating token string `t` under `secret` at time `now`.
pub open spec fn validate_spec(t: Seq<char>, secret: Seq<char>, now: i64) -> TokenCheck {
    if t.len() < 98 {
        TokenCheck::Malformed
    } else {
        let tag_s = t.subrange(0, 20);
        let sub_s = t.subrange(20, 59);
        let iat_s = t.subrange(59, 78);
        let exp_s = t.subrange(78, 97);
        let role_c = t[97];
        if !(digits_ok(tag_s) && digits_ok(sub_s) && digits_ok(iat_s) && digits_ok(exp_s)) {
            TokenCheck::Malformed
        } else if val_of_digits(sub_s) > u128::MAX as int || val_of_digits(iat_s) > i64::MAX as int
            || val_of_digits(exp_s) > i64::MAX as int {
            TokenCheck::Malformed
        } else if role_of_char(role_c) is None {
            TokenCheck::Malformed
        } else if val_of_digits(tag_s) != tag_of(secret, t.subrange(20, t.len() as int)) {
            TokenCheck::Malformed
        } else if now > val_of_digits(exp_s) {
            TokenCheck::Expired
        } else {
            TokenCheck::Valid(
                ClaimsV {
                    sub: val_of_digits(sub_s) as u128,
                    email: t.subrange(98, t.len() as int),
                    user_role: role_of_char(role_c).unwrap(),
                    exp: val_of_digits(exp_s) as i64,
                    iat: val_of_digits(iat_s) as i64,
                },
            )
        }
    }
}

/// How an executable validation result must relate to `validate_spec`.
pub open spec fn validate_outcome_matches(
    t: Seq<char>,
    secret: Seq<char>,
    now: i64,
    r: Result<Claims, AuthError>,
) -> bool {
    match r {
        Ok(c) => validate_spec(t, secret, now) == TokenCheck::Valid(c@),
        Err(e) => {
            ||| (validate_spec(t, secret, now) is Malformed && e == AuthError::InvalidToken)
            ||| (validate_spec(t, secret, now) is Expired && e == AuthError::TokenExpired)
        },
    }
}

/// Validates a token against the secret at an explicit time: checks shape,
/// signature, then expiry, and returns the decoded claims.
pub fn validate_token_at(token: &str, secret: &str, now: i64) -> (r: Result<Claims, AuthError>)
    ensures
        validate_outcome_matches(token@, secret@, now, r),
{
    let n = token.unicode_len();
    if n < 98 {
        return Err(AuthError::InvalidToken);
    }
    proof {
        crate::digits::lemma_pow10_bounds();
    }
    let tag_v = match parse_digits_range(token, 0, 20) {
        Some(v) => v,
        None => {
            proof {
                let tag_s = token@.subrange(0, 20);
                if digits_ok(tag_s) {
                    crate::digits::lemma_val_of_digits_bound(tag_s);
                }
            }
            return Err(AuthError::InvalidToken);
        },
    };
    let sub_v = match parse_digits_range(token, 20, 59) {
        Some(v) => v,
        None => {
            return Err(AuthError::InvalidToken);
        },
    };
    let iat_v = match parse_digits_range(token, 59, 78) {
        Some(v) => v,
        None => {
            return Err(AuthError::InvalidToken);
        },
    };
    if iat_v > i64::MAX as u128 {
        return Err(AuthError::InvalidToken);
    }
    let exp_v = match parse_digits_range(token, 78, 97) {
        Some(v) => v,
        None => {
            return Err(AuthError::InvalidToken);
        },
    };
    if exp_v > i64::MAX as u128 {
        return Err(AuthError::InvalidToken);
    }
    let role_c = token.get_char(97);
    let user_role = match role_from_char(role_c) {
        Some(role) => role,
        None => {
            return Err(AuthError::InvalidToken);
        },
    };
    let secret_len = secret.unicode_len();
    let keyed = mix_str(TAG_SEED, secret, 0, secret_len);
    proof {
        assert(secret@.subrange(0, secret@.len() as int) =~= secret@);
    }
    let tag_calc = mix_str(keyed, token, 20, n);
    if tag_v != tag_calc as u128 {
        return Err(AuthError::InvalidToken);
    }
    let exp: i64 = exp_v as i64;
    if now > exp {
        return Err(AuthError::TokenExpired);
    }
    let email_slice = token.substring_char(98, n);
    let claims = Claims {
        sub: sub_v,
        email: email_slice.to_owned(),
        user_role,
        exp,
        iat: iat_v as i64,
    };
    proof {
        assert(validate_spec(token@, secret@, now) == TokenCheck::Valid(claims@));
    }
    Ok(claims)
}

/// Validates a token against the secret at the current time. Validation is
/// stateless: no store lookup happens, so a deactivated or demoted user's
/// earlier tokens stay valid until their natural expiry — a deliberate
/// staleness window that callers bound by re-checking the store on
/// sensitive operations.
pub fn validate_token(token: &str, secret: &str) -> (r: Result<Claims, AuthError>)
    ensures
        exists|now: i64|
            0 <= now && #[trigger] validate_outcome_matches(token@, secret@, now, r),
{
    let now = current_time();
    let r = validate_token_at(token, secret, now);
    proof {
        assert(validate_outcome_matches(token@, secret@, now, r));
    }
    r
}

/// Issues a signed session token for `user`: fails exactly when the signing
/// secret is unavailable, and otherwise encodes claims issued now with a
/// 24-hour expiry.
pub fn generate_token(user: &User, secret: &str) -> (r: Result<String, AuthError>)
    ensures
        r matches Err(e) ==> e == AuthError::ConfigurationError && secret@.len() == 0,
        secret@.len() == 0 ==> r is Err,
        r matches Ok(t) ==> exists|iat: i64|
            0 <= iat && claims_wf(claims_for(user@, iat)) && t@ == encode_spec(
                claims_for(user@, iat),
                secret@,
            ),
{
    if secret.is_empty() {
        return Err(AuthError::ConfigurationError);
    }
    let claims = Claims::new(user.id, user.email.clone(), user.user_role);
    let token = encode_token(&claims, secret);
    proof {
        assert(claims@ =~= claims_for(user@, claims.iat));
        assert(0 <= claims.iat && claims_wf(claims_for(user@, claims.iat)) && token@
            == encode_spec(claims_for(user@, claims.iat), secret@));
    }
    Ok(token)
}

/// Lays the wire form of a token out into its fixed-width pieces.
proof fn lemma_encode_decomposition(c: ClaimsV, secret: Seq<char>)
    requires
        claims_wf(c),
    ensures
        encode_spec(c, secret).len() == 98 + c.email.len(),
        encode_spec(c, secret).subrange(0, 20) == dec_pad(
            tag_of(secret, payload_spec(c)),
            20,
        ),
        encode_spec(c, secret).subrange(20, encode_spec(c, secret).len() as int) == payload_spec(c),
        encode_spec(c, secret).subrange(20, 59) == dec_pad(c.sub as int, 39),
        encode_spec(c, secret).subrange(59, 78) == dec_pad(c.iat as int, 19),
        encode_spec(c, secret).subrange(78, 97) == dec_pad(c.exp as int, 19),
        encode_spec(c, secret)[97] == role_char_of(c.user_role),
        encode_spec(c, secret).subrange(98, encode_spec(c, secret).len() as int) == c.email,
{
    let p = payload_spec(c);
    let tag = tag_of(secret, p);
    let t = encode_spec(c, secret);
    lemma_dec_pad_len(tag, 20);
    lemma_dec_pad_len(c.sub as int, 39);
    lemma_dec_pad_len(c.iat as int, 19);
    lemma_dec_pad_len(c.exp as int, 19);
    assert(p.len() == 78 + c.email.len());
    assert(t.len() == 98 + c.email.len());
    assert(t.subrange(0, 20) =~= dec_pad(tag, 20));
    assert(t.subrange(20, t.len() as int) =~= p);
    assert(t.subrange(20, 59) =~= dec_pad(c.sub as int, 39));
    assert(t.subrange(59, 78) =~= dec_pad(c.iat as int, 19));
    assert(t.subrange(78, 97) =~= dec_pad(c.exp as int, 19));
    assert(t[97] == role_char_of(c.user_role));
    assert(t.subrange(98, t.len() as int) =~= c.email);
}

/// Within its validity window, a token round-trips: validating what
/// `encode_spec` produced under the same secret yields exactly the claims
/// that went in.
pub proof fn lemma_token_round_trip(c: ClaimsV, secret: Seq<char>, now: i64)
    requires
        claims_wf(c),
        now <= c.exp,
    ensures
        validate_spec(encode_spec(c, secret), secret, now) == TokenCheck::Valid(c),
{
    lemma_encode_parses(c, secret);
    let t = encode_spec(c, secret);
    let decoded = ClaimsV {
        sub: val_of_digits(t.subrange(20, 59)) as u128,
        email: t.subrange(98, t.len() as int),
        user_role: role_of_char(t[97]).unwrap(),
        exp: val_of_digits(t.subrange(78, 97)) as i64,
        iat: val_of_digits(t.subrange(59, 78)) as i64,
    };
    assert(decoded =~= c);
}

/// A token whose expiry has passed is rejected as expired, not malformed.
pub proof fn lemma_token_expiry(c: ClaimsV, secret: Seq<char>, now: i64)
    requires
        claims_wf(c),
        now > c.exp,
    ensures
        validate_spec(encode_spec(c, secret), secret, now) == TokenCheck::Expired,
{
    lemma_encode_parses(c, secret);
}

/// The shared structural part of the two validation lemmas: every check of
/// `validate_spec` up to the expiry comparison passes on an encoded token.
proof fn lemma_encode_parses(c: ClaimsV, secret: Seq<char>)
    requires
        claims_wf(c),
    ensures
        encode_spec(c, secret).len() >= 98,
        digits_ok(encode_spec(c, secret).subrange(0, 20)),
        digits_ok(encode_spec(c, secret).subrange(20, 59)),
        digits_ok(encode_spec(c, secret).subrange(59, 78)),
        digits_ok(encode_spec(c, secret).subrange(78, 97)),
        val_of_digits(encode_spec(c, secret).subrange(20, 59)) == c.sub as int,
        val_of_digits(encode_spec(c, secret).subrange(59, 78)) == c.iat as int,
        val_of_digits(encode_spec(c, secret).subrange(78, 97)) == c.exp as int,
        role_of_char(encode_spec(c, secret)[97]) == Some(c.user_role),
        val_of_digits(encode_spec(c, secret).subrange(0, 20)) == tag_of(
            secret,
            encode_spec(c, secret).subrange(20, encode_spec(c, secret).len() as int),
        ),
        encode_spec(c, secret).subrange(98, encode_spec(c, secret).len() as int) == c.email,
{
    lemma_encode_decomposition(c, secret);
    let p = payload_spec(c);
    let tag = tag_of(secret, p);
    crate::digits::lemma_pow10_bounds();
    lemma_tag_bound(secret, p);
    lemma_dec_pad_digits(tag, 20);
    lemma_dec_pad_digits(c.sub as int, 39);
    lemma_dec_pad_digits(c.iat as int, 19);
    lemma_dec_pad_digits(c.exp as int, 19);
    lemma_val_of_dec_pad(tag, 20);
    lemma_val_of_dec_pad(c.sub as int, 39);
    lemma_val_of_dec_pad(c.iat as int, 19);
    lemma_val_of_dec_pad(c.exp as int, 19);
}

} // verus!
