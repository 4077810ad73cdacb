//! The credential store: user records, their uniqueness invariants, and the
//! account-lifecycle operations that mutate them.

use vstd::prelude::*;

use crate::clock::day_after;
use crate::entropy::fresh_id;
use crate::entropy::generate_verification_code;
use crate::entropy::is_code_char;
use crate::entropy::VERIFICATION_CODE_LEN;
use crate::errors::AuthError;
use crate::hashing::bcrypt_accepts;
use crate::hashing::hash_password;
use crate::hashing::verify_password;
use crate::text::str_eq;
use crate::user::user_wf;
use crate::user::CreateUser;
use crate::user::User;
use crate::user::UserV;

verus! {

/// Whether some record in `s` carries this email address.
pub open spec fn has_email(s: Seq<UserV>, email: Seq<char>) -> bool {
    exists|i: int| 0 <= i < s.len() && (#[trigger] s[i]).email == email
}

/// The index of the record carrying `email`; well-defined under `store_wf`.
pub open spec fn email_idx(s: Seq<UserV>, email: Seq<char>) -> int {
    choose|i: int| 0 <= i < s.len() && (#[trigger] s[i]).email == email
}

/// The record carrying `email`; well-defined under `store_wf`.
pub open spec fn user_with_email(s: Seq<UserV>, email: Seq<char>) -> UserV {
    s[email_idx(s, email)]
}

/// Whether some record in `s` carries this identifier.
pub open spec fn has_id(s: Seq<UserV>, id: u128) -> bool {
    exists|i: int| 0 <= i < s.len() && (#[trigger] s[i]).id == id
}

/// The index of the record carrying `id`; well-defined under `store_wf`.
pub open spec fn id_idx(s: Seq<UserV>, id: u128) -> int {
    choose|i: int| 0 <= i < s.len() && (#[trigger] s[i]).id == id
}

/// The record carrying `id`; well-defined under `store_wf`.
pub open spec fn user_with_id(s: Seq<UserV>, id: u128) -> UserV {
    s[id_idx(s, id)]
}

/// Whether some record in `s` carries this live verification code.
pub open spec fn has_code(s: Seq<UserV>, code: Seq<char>) -> bool {
    exists|i: int| 0 <= i < s.len() && (#[trigger] s[i]).email_verification_code == Some(code)
}

/// Whether `i` is the first index whose record carries `code`.
pub open spec fn is_first_code_idx(s: Seq<UserV>, code: Seq<char>, i: int) -> bool {
    &&& 0 <= i < s.len()
    &&& s[i].email_verification_code == Some(code)
    &&& forall|j: int| 0 <= j < i ==> (#[trigger] s[j]).email_verification_code != Some(code)
}

/// The first index whose record carries `code`.
pub open spec fn first_code_idx(s: Seq<UserV>, code: Seq<char>) -> int {
    choose|i: int| is_first_code_idx(s, code, i)
}

/// Below any holder of `code` there is a first holder.
proof fn lemma_first_holder_below(s: Seq<UserV>, code: Seq<char>, j: int)
    requires
        0 <= j < s.len(),
        s[j].email_verification_code == Some(code),
    ensures
        exists|i: int| is_first_code_idx(s, code, i),
    decreases j,
{
    if forall|k: int| 0 <= k < j ==> (#[trigger] s[k]).email_verification_code != Some(code) {
        assert(is_first_code_idx(s, code, j));
    } else {
        let k = choose|k: int|
            0 <= k < j && (#[trigger] s[k]).email_verification_code == Some(code);
        lemma_first_holder_below(s, code, k);
    }
}

/// When some record holds `code`, `first_code_idx` names the first one.
pub proof fn lemma_first_code_idx(s: Seq<UserV>, code: Seq<char>)
    requires
        has_code(s, code),
    ensures
        is_first_code_idx(s, code, first_code_idx(s, code)),
{
    let j = choose|i: int|
        0 <= i < s.len() && (#[trigger] s[i]).email_verification_code == Some(code);
    lemma_first_holder_below(s, code, j);
}

/// Two first holders of the same code are the same index.
pub proof fn lemma_first_code_idx_unique(s: Seq<UserV>, code: Seq<char>, i: int, j: int)
    requires
        is_first_code_idx(s, code, i),
        is_first_code_idx(s, code, j),
    ensures
        i == j,
{
}

/// The store's invariant: emails and identifiers are unique, and every
/// record is well-formed.
pub open spec fn store_wf(s: Seq<UserV>) -> bool {
    &&& forall|i: int, j: int|
        0 <= i < j < s.len() ==> (#[trigger] s[i]).email != (#[trigger] s[j]).email
    &&& forall|i: int, j: int| 0 <= i < j < s.len() ==> (#[trigger] s[i]).id != (#[trigger] s[j]).id
    &&& forall|i: int| 0 <= i < s.len() ==> user_wf(#[trigger] s[i])
}

/// The record views of a sequence of stored users.
pub open spec fn views_of(s: Seq<User>) -> Seq<UserV> {
    s.map_values(|u: User| u@)
}

/// Newest first: creation times never increase along the sequence.
pub open spec fn sorted_by_created_desc(s: Seq<UserV>) -> bool {
    forall|i: int, j: int|
        0 <= i < j < s.len() ==> (#[trigger] s[i]).created_at >= (#[trigger] s[j]).created_at
}

/// An in-memory credential store: one row per user.
#[derive(Debug)]
pub struct CredentialStore {
    users: Vec<User>,
}

impl View for CredentialStore {
    type V = Seq<UserV>;

    closed spec fn view(&self) -> Seq<UserV> {
        views_of(self.users@)
    }
}

/// The record `u` verified at time `now`: the code and its expiry are
/// cleared, everything else is kept.
pub open spec fn verified_user(u: UserV, now: i64) -> UserV {
    UserV {
        is_email_verified: true,
        email_verification_code: None,
        email_verification_expires_at: None,
        updated_at: now,
        ..u
    }
}

/// The record `u` re-issued verification code `code` at time `now`.
pub open spec fn recoded_user(u: UserV, code: Seq<char>, now: i64) -> UserV {
    UserV {
        email_verification_code: Some(code),
        email_verification_expires_at: Some(day_after(now)),
        updated_at: now,
        ..u
    }
}

/// The record `u` with its activation flag flipped at time `now`.
pub open spec fn toggled_user(u: UserV, now: i64) -> UserV {
    UserV { is_active: !u.is_active, updated_at: now, ..u }
}

/// Whether the verification code carried by `u` is past its expiry at `now`.
pub open spec fn code_expired(u: UserV, now: i64) -> bool {
    match u.email_verification_expires_at {
        Some(expires_at) => now > expires_at,
        None => false,
    }
}

/// The outcome and post-state of presenting verification code `code` at
/// time `now`: an unknown code is refused; a known but expired code is
/// refused and deliberately left in place; otherwise the first holder
/// becomes verified and the code is cleared.
pub open spec fn verify_email_spec(s: Seq<UserV>, code: Seq<char>, now: i64) -> (Result<
    UserV,
    AuthError,
>, Seq<UserV>) {
    if !has_code(s, code) {
        (Err(AuthError::InvalidVerificationCode), s)
    } else {
        let i = first_code_idx(s, code);
        if code_expired(s[i], now) {
            (Err(AuthError::VerificationCodeExpired), s)
        } else {
            let u2 = verified_user(s[i], now);
            (Ok(u2), s.update(i, u2))
        }
    }
}

/// The outcome of a login attempt: an unknown email and a wrong password
/// yield the same error; an inactive or unverified account is refused after
/// the password check; otherwise the stored record is returned.
pub open spec fn login_spec(s: Seq<UserV>, email: Seq<char>, password: Seq<char>) -> Result<
    UserV,
    AuthError,
> {
    if !has_email(s, email) {
        Err(AuthError::InvalidCredentials)
    } else {
        let u = user_with_email(s, email);
        if !bcrypt_accepts(password, u.password_hash) {
            Err(AuthError::InvalidCredentials)
        } else if !u.is_active {
            Err(AuthError::AccountInactive)
        } else if !u.is_email_verified {
            Err(AuthError::EmailNotVerified)
        } else {
            Ok(u)
        }
    }
}

impl CredentialStore {
    /// An empty store.
    pub fn new() -> (r: Self)
        ensures
            r@ == Seq::<UserV>::empty(),
            store_wf(r@),
    {
        let r = CredentialStore { users: Vec::new() };
        proof {
            assert(r@ =~= Seq::<UserV>::empty());
        }
        r
    }

    /// How many records the store holds.
    pub fn len(&self) -> (r: usize)
        ensures
            r == self@.len(),
    {
        self.users.len()
    }

    /// The index of the record carrying `email`, if any.
    fn email_index(&self, email: &str) -> (r: Option<usize>)
        requires
            store_wf(self@),
        ensures
            match r {
                Some(i) => has_email(self@, email@) && i as int == email_idx(self@, email@)
                    && self@[i as int].email == email@,
                None => !has_email(self@, email@),
            },
    {
        let n = self.users.len();
        let mut i: usize = 0;
        while i < n
            invariant
                store_wf(self@),
                n == self@.len(),
                0 <= i <= n,
                forall|j: int| 0 <= j < i ==> (#[trigger] self@[j]).email != email@,
            decreases n - i,
        {
            if str_eq(self.users[i].email.as_str(), email) {
                proof {
                    assert(self@[i as int].email == email@);
                    let k = email_idx(self@, email@);
                    assert(0 <= k < self@.len() && self@[k].email == email@);
                    if k != i as int {
                        assert(self@[k].email != self@[i as int].email);
                    }
                }
                return Some(i);
            }
            i = i + 1;
        }
        None
    }

    /// The index of the record carrying `id`, if any.
    fn id_index(&self, id: u128) -> (r: Option<usize>)
        requires
            store_wf(self@),
        ensures
            match r {
                Some(i) => has_id(self@, id) && i as int == id_idx(self@, id) && self@[i as int].id
                    == id,
                None => !has_id(self@, id),
            },
    {
        let n = self.users.len();
        let mut i: usize = 0;
        while i < n
            invariant
                store_wf(self@),
                n == self@.len(),
                0 <= i <= n,
                forall|j: int| 0 <= j < i ==> (#[trigger] self@[j]).id != id,
            decreases n - i,
        {
            if self.users[i].id == id {
                proof {
                    let k = id_idx(self@, id);
                    assert(0 <= k < self@.len() && self@[k].id == id);
                    if k != i as int {
                        assert(self@[k].id != self@[i as int].id);
                    }
                }
                return Some(i);
            }
            i = i + 1;
        }
        None
    }

    /// The index of the first record carrying live code `code`, if any.
    fn code_index(&self, code: &str) -> (r: Option<usize>)
        ensures
            match r {
                Some(i) => has_code(self@, code@) && i as int == first_code_idx(self@, code@)
                    && is_first_code_idx(self@, code@, i as int),
                None => !has_code(self@, code@),
            },
    {
        let n = self.users.len();
        let mut i: usize = 0;
        while i < n
            invariant
                n == self@.len(),
                0 <= i <= n,
                forall|j: int|
                    0 <= j < i ==> (#[trigger] self@[j]).email_verification_code != Some(code@),
            decreases n - i,
        {
            let matches_here = match &self.users[i].email_verification_code {
                Some(stored) => str_eq(stored.as_str(), code),
                None => false,
            };
            if matches_here {
                proof {
                    assert(self@[i as int].email_verification_code == Some(code@));
                    assert(is_first_code_idx(self@, code@, i as int));
                    lemma_first_code_idx(self@, code@);
                    lemma_first_code_idx_unique(
                        self@,
                        code@,
                        i as int,
                        first_code_idx(self@, code@),
                    );
                }
                return Some(i);
            }
            i = i + 1;
        }
        None
    }

    /// The record carrying `email`, if any.
    pub fn find_by_email(&self, email: &str) -> (r: Option<User>)
        requires
            store_wf(self@),
        ensures
            match r {
                Some(u) => has_email(self@, email@) && u@ == user_with_email(self@, email@),
                None => !has_email(self@, email@),
            },
    {
        match self.email_index(email) {
            Some(i) => Some(self.users[i].clone()),
            None => None,
        }
    }

    /// The record carrying identifier `id`, if any.
    pub fn find_by_id(&self, id: u128) -> (r: Option<User>)
        requires
            store_wf(self@),
        ensures
            match r {
                Some(u) => has_id(self@, id) && u@ == user_with_id(self@, id),
                None => !has_id(self@, id),
            },
    {
        match self.id_index(id) {
            Some(i) => Some(self.users[i].clone()),
            None => None,
        }
    }

    /// The first record carrying live verification code `code`, if any.
    pub fn find_by_verification_code(&self, code: &str) -> (r: Option<User>)
        ensures
            match r {
                Some(u) => has_code(self@, code@) && u@ == self@[first_code_idx(self@, code@)],
                None => !has_code(self@, code@),
            },
    {
        match self.code_index(code) {
            Some(i) => Some(self.users[i].clone()),
            None => None,
        }
    }

    /// Every record, newest first: exactly the store's records, ordered by
    /// descending creation time.
    pub fn find_all(&self) -> (r: Vec<User>)
        ensures
            views_of(r@).to_multiset() == self@.to_multiset(),
            sorted_by_created_desc(views_of(r@)),
    {
        let n = self.users.len();
        let mut remaining: Vec<User> = Vec::new();
        let mut i: usize = 0;
        while i < n
            invariant
                n == self@.len(),
                0 <= i <= n,
                remaining@.len() == i,
                forall|j: int| 0 <= j < i ==> (#[trigger] remaining@[j])@ == self@[j],
            decreases n - i,
        {
            remaining.push(self.users[i].clone());
            i = i + 1;
        }
        proof {
            assert(views_of(remaining@) =~= self@);
        }
        let mut out: Vec<User> = Vec::new();
        proof {
            broadcast use vstd::seq_lib::group_to_multiset_ensures;
            broadcast use vstd::multiset::group_multiset_axioms;

            assert(views_of(out@) =~= Seq::<UserV>::empty());
            assert(views_of(out@).to_multiset() =~= vstd::multiset::Multiset::<UserV>::empty());
            assert(views_of(out@).to_multiset().add(views_of(remaining@).to_multiset()) =~= self@
                .to_multiset());
        }
        while remaining.len() > 0
            invariant
                views_of(out@).to_multiset().add(views_of(remaining@).to_multiset()) == self@
                    .to_multiset(),
                sorted_by_created_desc(views_of(out@)),
                forall|j: int, k: int|
                    0 <= j < out@.len() && 0 <= k < remaining@.len() ==> (#[trigger] out@[j])@
                        .created_at >= (#[trigger] remaining@[k])@.created_at,
            decreases remaining@.len(),
        {
            let mut newest: usize = 0;
            let mut k: usize = 1;
            while k < remaining.len()
                invariant
                    0 < remaining@.len(),
                    0 <= newest < k <= remaining@.len(),
                    forall|t: int|
                        0 <= t < k ==> (#[trigger] remaining@[t])@.created_at
                            <= remaining@[newest as int]@.created_at,
                decreases remaining@.len() - k,
            {
                if remaining[k].created_at > remaining[newest].created_at {
                    newest = k;
                }
                k = k + 1;
            }
            let ghost out_pre = out@;
            let ghost rem_pre = remaining@;
            let picked = remaining.remove(newest);
            out.push(picked);
            proof {
                broadcast use vstd::seq_lib::group_to_multiset_ensures;

                assert(views_of(rem_pre)[newest as int] == out@.last()@);
                assert(views_of(remaining@) =~= views_of(rem_pre).remove(newest as int));
                assert(views_of(out@) =~= views_of(out_pre).push(out@.last()@));
                assert(views_of(out@).to_multiset().add(views_of(remaining@).to_multiset()) =~= self@
                    .to_multiset()) by {
                    broadcast use vstd::multiset::group_multiset_axioms;

                    assert(views_of(rem_pre).contains(views_of(rem_pre)[newest as int]));
                };
            }
        }
        proof {
            broadcast use vstd::seq_lib::group_to_multiset_ensures;
            broadcast use vstd::multiset::group_multiset_axioms;

            assert(views_of(remaining@) =~= Seq::<UserV>::empty());
            assert(views_of(remaining@).to_multiset() =~= vstd::multiset::Multiset::<UserV>::empty());
            assert(views_of(out@).to_multiset() =~= self@.to_multiset());
        }
        out
    }

    /// Appends a fully-built record: succeeds exactly when neither its
    /// email nor its identifier is already present. This is the
    /// deterministic core of registration; `create` feeds it the hashed
    /// password and the freshly drawn identifier and code.
    pub fn insert_record(&mut self, record: User) -> (r: Result<User, AuthError>)
        requires
            store_wf(old(self)@),
            user_wf(record@),
        ensures
            store_wf(final(self)@),
            has_email(old(self)@, record.email@) <==> (r matches Err(e) && e matches
                AuthError::EmailAlreadyExists { .. }),
            match r {
                Err(AuthError::EmailAlreadyExists { email }) => email@ == record.email@,
                _ => true,
            },
            (!has_email(old(self)@, record.email@) && has_id(old(self)@, record.id)) <==> (
            r matches Err(e) && e == AuthError::Infrastructure),
            r matches Err(_) ==> final(self)@ == old(self)@,
            (!has_email(old(self)@, record.email@) && !has_id(old(self)@, record.id)) <==> r
                is Ok,
            r matches Ok(u) ==> u@ == record@ && final(self)@ == old(self)@.push(record@),
    {
        if self.email_index(record.email.as_str()).is_some() {
            return Err(AuthError::EmailAlreadyExists { email: record.email });
        }
        if self.id_index(record.id).is_some() {
            return Err(AuthError::Infrastructure);
        }
        let returned = record.clone();
        let ghost prior = self@;
        self.users.push(record);
        proof {
            assert(self@ =~= prior.push(returned@));
            assert forall|i: int, j: int| 0 <= i < j < self@.len() implies (#[trigger] self@[i]).email
                != (#[trigger] self@[j]).email && self@[i].id != self@[j].id by {
                if j == self@.len() - 1 {
                    assert(self@[j] == returned@);
                    assert(!has_email(prior, returned@.email));
                    assert(!has_id(prior, returned@.id));
                    assert(self@[i] == prior[i]);
                }
            }
            assert forall|i: int| 0 <= i < self@.len() implies user_wf(#[trigger] self@[i]) by {
                if i < prior.len() {
                    assert(self@[i] == prior[i]);
                } else {
                    assert(self@[i] == returned@);
                }
            }
        }
        Ok(returned)
    }

    /// Registers a new user record at time `now`: refused exactly when the
    /// email is taken; otherwise the password is hashed, a fresh identifier
    /// and a 24-hour verification code are drawn, and the record is appended
    /// unverified.
    pub fn create(&mut self, user: CreateUser, now: i64) -> (r: Result<User, AuthError>)
        requires
            store_wf(old(self)@),
        ensures
            store_wf(final(self)@),
            has_email(old(self)@, user.email@) <==> (r matches Err(e) && e matches
                AuthError::EmailAlreadyExists { .. }),
            match r {
                Err(AuthError::EmailAlreadyExists { email }) => email@ == user.email@,
                _ => true,
            },
            r matches Err(e) ==> final(self)@ == old(self)@ && (e matches
                AuthError::EmailAlreadyExists { .. } || e == AuthError::PasswordHash || e
                == AuthError::Infrastructure),
            r matches Ok(u) ==> {
                &&& !has_email(old(self)@, user.email@)
                &&& !has_id(old(self)@, u@.id)
                &&& final(self)@ == old(self)@.push(u@)
                &&& u@.fullname == user.fullname@
                &&& u@.email == user.email@
                &&& u@.user_role == user.user_role
                &&& u@.is_active == user.is_active
                &&& !u@.is_email_verified
                &&& u@.email_verification_code matches Some(code) && code.len()
                    == VERIFICATION_CODE_LEN && (forall|i: int|
                    0 <= i < code.len() ==> is_code_char(#[trigger] code[i]))
                &&& u@.email_verification_expires_at == Some(day_after(now))
                &&& u@.created_at == now
                &&& u@.updated_at == now
                &&& bcrypt_accepts(user.password_hash@, u@.password_hash)
            },
    {
        if self.find_by_email(user.email.as_str()).is_some() {
            return Err(AuthError::EmailAlreadyExists { email: user.email });
        }
        let hashed = match hash_password(user.password_hash.as_str()) {
            Ok(h) => h,
            Err(_) => {
                return Err(AuthError::PasswordHash);
            },
        };
        let code = generate_verification_code();
        let id = fresh_id();
        let record = User {
            id,
            fullname: user.fullname,
            email: user.email,
            password_hash: hashed,
            user_role: user.user_role,
            email_verification_code: Some(code),
            email_verification_expires_at: Some(crate::clock::add_day(now)),
            is_email_verified: false,
            is_active: user.is_active,
            created_at: now,
            updated_at: now,
        };
        self.insert_record(record)
    }

    /// Marks the first holder of `code` verified at time `now`; refuses an
    /// unknown code, and an expired one without touching the record.
    pub fn verify_email(&mut self, code: &str, now: i64) -> (r: Result<User, AuthError>)
        requires
            store_wf(old(self)@),
        ensures
            store_wf(final(self)@),
            final(self)@ == verify_email_spec(old(self)@, code@, now).1,
            match (r, verify_email_spec(old(self)@, code@, now).0) {
                (Ok(u), Ok(v)) => u@ == v,
                (Err(e), Err(e2)) => e == e2,
                _ => false,
            },
    {
        let i = match self.code_index(code) {
            Some(i) => i,
            None => {
                return Err(AuthError::InvalidVerificationCode);
            },
        };
        let expired = match &self.users[i].email_verification_expires_at {
            Some(expires_at) => now > *expires_at,
            None => false,
        };
        if expired {
            return Err(AuthError::VerificationCodeExpired);
        }
        let mut updated = self.users[i].clone();
        updated.is_email_verified = true;
        updated.email_verification_code = None;
        updated.email_verification_expires_at = None;
        updated.updated_at = now;
        let returned = updated.clone();
        let ghost prior = self@;
        self.users.set(i, updated);
        proof {
            assert(self@ =~= prior.update(i as int, returned@));
            assert(returned@ =~= verified_user(prior[i as int], now));
            lemma_wf_update_same_identity(prior, i as int, returned@);
        }
        Ok(returned)
    }

    /// Re-issues a verification code for the user carrying `email` at time
    /// `now`. An already-verified user is an idempotent success: the record
    /// is returned untouched and no code is drawn.
    pub fn resend_verification_code(&mut self, email: &str, now: i64) -> (r: Result<
        User,
        AuthError,
    >)
        requires
            store_wf(old(self)@),
        ensures
            store_wf(final(self)@),
            r is Ok <==> has_email(old(self)@, email@),
            r matches Err(e) ==> e matches AuthError::NotFoundByEmail { .. },
            match r {
                Err(AuthError::NotFoundByEmail { email: missing }) => missing@ == email@,
                _ => true,
            },
            r matches Err(_) ==> final(self)@ == old(self)@,
            r matches Ok(u) ==> has_email(old(self)@, email@) && {
                let w = user_with_email(old(self)@, email@);
                if w.is_email_verified {
                    u@ == w && final(self)@ == old(self)@
                } else {
                    exists|code: Seq<char>|
                        {
                            &&& code.len() == VERIFICATION_CODE_LEN
                            &&& (forall|i: int|
                                0 <= i < code.len() ==> is_code_char(#[trigger] code[i]))
                            &&& u@ == #[trigger] recoded_user(w, code, now)
                            &&& final(self)@ == old(self)@.update(
                                email_idx(old(self)@, email@),
                                u@,
                            )
                        }
                }
            },
    {
        let i = match self.email_index(email) {
            Some(i) => i,
            None => {
                return Err(AuthError::NotFoundByEmail { email: email.to_owned() });
            },
        };
        if self.users[i].is_email_verified {
            let unchanged = self.users[i].clone();
            return Ok(unchanged);
        }
        let code = generate_verification_code();
        let mut updated = self.users[i].clone();
        updated.email_verification_code = Some(code);
        updated.email_verification_expires_at = Some(crate::clock::add_day(now));
        updated.updated_at = now;
        let returned = updated.clone();
        let ghost prior = self@;
        let ghost fresh_code = match returned@.email_verification_code {
            Some(c) => c,
            None => Seq::empty(),
        };
        self.users.set(i, updated);
        proof {
            assert(self@ =~= prior.update(i as int, returned@));
            assert(returned@ =~= recoded_user(prior[i as int], fresh_code, now));
            lemma_wf_update_same_identity(prior, i as int, returned@);
        }
        Ok(returned)
    }

    /// The record carrying `email`, when `password` matches its stored
    /// hash; `None` on an unknown email or a failed password check alike.
    pub fn authenticate(&self, email: &str, password: &str) -> (r: Option<User>)
        requires
            store_wf(self@),
        ensures
            match r {
                Some(u) => has_email(self@, email@) && u@ == user_with_email(self@, email@)
                    && bcrypt_accepts(password@, u@.password_hash),
                None => !has_email(self@, email@) || !bcrypt_accepts(
                    password@,
                    user_with_email(self@, email@).password_hash,
                ),
            },
    {
        match self.find_by_email(email) {
            Some(u) => {
                if verify_password(password, u.password_hash.as_str()) {
                    Some(u)
                } else {
                    None
                }
            },
            None => None,
        }
    }

    /// Flips the activation flag of the record carrying `user_id` at time
    /// `now`; refused exactly when no record carries it.
    pub fn toggle_active(&mut self, user_id: u128, now: i64) -> (r: Result<User, AuthError>)
        requires
            store_wf(old(self)@),
        ensures
            store_wf(final(self)@),
            !has_id(old(self)@, user_id) <==> (r matches Err(e) && e == (AuthError::NotFound {
                id: user_id,
            })),
            r matches Err(e) ==> final(self)@ == old(self)@ && e == (AuthError::NotFound {
                id: user_id,
            }),
            r matches Ok(u) ==> ({
                &&& has_id(old(self)@, user_id)
                &&& u@ == toggled_user(user_with_id(old(self)@, user_id), now)
                &&& final(self)@ == old(self)@.update(id_idx(old(self)@, user_id), u@)
            }),
    {
        let i = match self.id_index(user_id) {
            Some(i) => i,
            None => {
                return Err(AuthError::NotFound { id: user_id });
            },
        };
        let mut updated = self.users[i].clone();
        updated.is_active = !updated.is_active;
        updated.updated_at = now;
        let returned = updated.clone();
        let ghost prior = self@;
        self.users.set(i, updated);
        proof {
            assert(self@ =~= prior.update(i as int, returned@));
            assert(returned@ =~= toggled_user(prior[i as int], now));
            lemma_wf_update_same_identity(prior, i as int, returned@);
        }
        Ok(returned)
    }
}

/// Replacing a record with one that keeps its email and identifier, and is
/// itself well-formed, preserves the store invariant.
pub proof fn lemma_wf_update_same_identity(s: Seq<UserV>, i: int, u2: UserV)
    requires
        store_wf(s),
        0 <= i < s.len(),
        u2.email == s[i].email,
        u2.id == s[i].id,
        user_wf(u2),
    ensures
        store_wf(s.update(i, u2)),
{
    let s2 = s.update(i, u2);
    assert forall|a: int, b: int| 0 <= a < b < s2.len() implies (#[trigger] s2[a]).email
        != (#[trigger] s2[b]).email && s2[a].id != s2[b].id by {
        assert(s[a].email != s[b].email && s[a].id != s[b].id);
    }
    assert forall|a: int| 0 <= a < s2.len() implies user_wf(#[trigger] s2[a]) by {
        if a != i {
            assert(s2[a] == s[a]);
        }
    }
}

} // verus!
