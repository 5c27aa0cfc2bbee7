//! The credential service and the user model: salted password hashes
//! checked through bcrypt, unique emails, and display tags made unique by a
//! random four-digit hex discriminator, allocated collision-checked with a
//! bounded number of random draws before an exhaustive sweep.
use vstd::prelude::*;

use crate::token::AuthError;
use crate::trusted::{bcrypt_check, bcrypt_hash, bcrypt_verify};
use vstd::string::StringSliceAdditionalSpecFns;

verus! {

#[derive(Clone, Copy, Debug, PartialEq, Eq, Structural)]
pub enum Theme {
    Dark,
    Light,
}

impl Default for Theme {
    fn default() -> (r: Theme)
        ensures
            r == Theme::Dark,
    {
        Theme::Dark
    }
}

#[derive(Clone, Copy, Debug, PartialEq, Eq, Structural)]
pub enum Status {
    Online,
    Idle,
    DoNotDisturb,
    Offline,
}

impl Default for Status {
    fn default() -> (r: Status)
        ensures
            r == Status::Offline,
    {
        Status::Offline
    }
}

#[derive(Clone, Copy, Debug, PartialEq, Eq, Structural)]
pub enum Badge {
    Admin,
    Moderator,
}

/// A display tag: a name and its four-hex-digit discriminator.
pub type Tag = (String, [i32; 4]);

/// The value of one hex digit byte, either case.
pub open spec fn spec_hex_val(b: u8) -> Option<i32> {
    if 0x30 <= b <= 0x39 {
        Some((b - 0x30) as i32)
    } else if 0x61 <= b <= 0x66 {
        Some((b - 0x61 + 10) as i32)
    } else if 0x41 <= b <= 0x46 {
        Some((b - 0x41 + 10) as i32)
    } else {
        None
    }
}

/// The first position at or after `i` holding `#`, or the end.
pub open spec fn hash_pos(b: Seq<u8>, i: int) -> int
    decreases b.len() - i,
{
    if 0 <= i < b.len() {
        if b[i] == 0x23 {
            i
        } else {
            hash_pos(b, i + 1)
        }
    } else {
        i
    }
}

/// A tag string splits at its first `#` into a name and at least four hex
/// digits (anything after the fourth digit is ignored).
pub open spec fn spec_tag_shape(b: Seq<u8>) -> bool {
    let i = hash_pos(b, 0);
    &&& i < b.len()
    &&& i + 5 <= b.len()
    &&& spec_hex_val(b[i + 1]) is Some
    &&& spec_hex_val(b[i + 2]) is Some
    &&& spec_hex_val(b[i + 3]) is Some
    &&& spec_hex_val(b[i + 4]) is Some
}

proof fn lemma_hash_pos_conf(b: Seq<u8>, i: int, e: int)
    requires
        0 <= i <= e <= b.len(),
        forall|j: int| i <= j < e ==> #[trigger] b[j] != 0x23,
        e == b.len() || b[e] == 0x23,
    ensures
        hash_pos(b, i) == e,
    decreases e - i,
{
    if i < e {
        lemma_hash_pos_conf(b, i + 1, e);
    }
}

/// Reads one hex digit byte.
fn hex_val(b: u8) -> (r: Option<i32>)
    ensures
        r == spec_hex_val(b),
{
    if 0x30 <= b && b <= 0x39 {
        Some((b - 0x30) as i32)
    } else if 0x61 <= b && b <= 0x66 {
        Some((b - 0x61 + 10) as i32)
    } else if 0x41 <= b && b <= 0x46 {
        Some((b - 0x41 + 10) as i32)
    } else {
        None
    }
}

/// Splits a tag string of the form `name#hhhh` into the name before the
/// first `#` and the four hex digits after it; `None` where there is no
/// `#`, fewer than four hex digits follow it, or the split point is not a
/// character boundary (never the case for the ASCII `#`).
pub fn parse_tag(tag: &str) -> (r: Option<(&str, [i32; 4])>)
    ensures
        ({
            let b = tag.spec_bytes();
            let i = hash_pos(b, 0);
            match r {
                Some((name, d)) => {
                    &&& spec_tag_shape(b)
                    &&& name.spec_bytes() == b.subrange(0, i)
                    &&& Some(d@[0]) == spec_hex_val(b[i + 1])
                    &&& Some(d@[1]) == spec_hex_val(b[i + 2])
                    &&& Some(d@[2]) == spec_hex_val(b[i + 3])
                    &&& Some(d@[3]) == spec_hex_val(b[i + 4])
                },
                None => !spec_tag_shape(b) || !vstd::utf8::is_char_boundary(b, i),
            }
        }),
{
    let b = tag.as_bytes();
    let n = b.len();
    let mut i: usize = 0;
    while i < n && b[i] != 0x23
        invariant
            0 <= i <= n == tag.spec_bytes().len(),
            b@ == tag.spec_bytes(),
            forall|j: int| 0 <= j < i ==> #[trigger] b@[j] != 0x23,
        decreases n - i,
    {
        i += 1;
    }
    proof {
        lemma_hash_pos_conf(tag.spec_bytes(), 0, i as int);
    }
    if i == n || n - i < 5 {
        return None;
    }
    let d0 = match hex_val(b[i + 1]) {
        Some(v) => v,
        None => {
            return None;
        },
    };
    let d1 = match hex_val(b[i + 2]) {
        Some(v) => v,
        None => {
            return None;
        },
    };
    let d2 = match hex_val(b[i + 3]) {
        Some(v) => v,
        None => {
            return None;
        },
    };
    let d3 = match hex_val(b[i + 4]) {
        Some(v) => v,
        None => {
            return None;
        },
    };
    if !tag.is_char_boundary(i) {
        return None;
    }
    let (name, _rest) = tag.split_at(i);
    let d: [i32; 4] = [d0, d1, d2, d3];
    assert(name.spec_bytes() =~= tag.spec_bytes().subrange(0, i as int));
    Some((name, d))
}

/// A user record: unique email, salted password hash, display tag with its
/// discriminator, and presentation fields.
pub struct User {
    pub id: u64,
    pub tag: Tag,
    pub display_name: String,
    pub email: String,
    pub password_hash: String,
    pub badges: Vec<Badge>,
    pub status: Status,
    pub theme: Theme,
}

impl crate::util::Referrable for User {
    open spec fn spec_table() -> Seq<char> {
        "user"@
    }
}

impl crate::util::ReferrableWithId for User {
    type Id = u64;

    open spec fn spec_id(&self) -> u64 {
        self.id
    }

    fn id(&self) -> (r: &u64) {
        &self.id
    }
}

/// Some user of `l` carries this display name with this discriminator.
pub open spec fn spec_tag_taken(l: Seq<User>, name: Seq<char>, a: int, b: int, c: int, d: int) -> bool {
    exists|i: int|
        0 <= i < l.len() && (#[trigger] l[i].tag).0@ == name && l[i].tag.1@[0] == a
            && l[i].tag.1@[1] == b && l[i].tag.1@[2] == c && l[i].tag.1@[3] == d
}

/// The position of the first user of `l` at or after `j` with this email.
pub open spec fn find_email_from(l: Seq<User>, email: Seq<char>, j: int) -> Option<int>
    decreases l.len() - j,
{
    if 0 <= j < l.len() {
        if l[j].email@ == email {
            Some(j)
        } else {
            find_email_from(l, email, j + 1)
        }
    } else {
        None
    }
}

pub open spec fn spec_find_email(l: Seq<User>, email: Seq<char>) -> Option<int> {
    find_email_from(l, email, 0)
}

/// The directory of user records.
pub struct UserStore {
    pub users: Vec<User>,
}

impl UserStore {
    /// Ids are positions, emails are unique, discriminator digits are hex
    /// digits, and no two users share a (name, discriminator) pair.
    pub open spec fn wf(&self) -> bool {
        let l = self.users@;
        &&& forall|i: int| 0 <= i < l.len() ==> #[trigger] l[i].id == i as u64
        &&& forall|i: int, j: int|
            0 <= i < j < l.len() ==> (#[trigger] l[i].email)@ != (#[trigger] l[j].email)@
        &&& forall|i: int, k: int|
            0 <= i < l.len() && 0 <= k < 4 ==> 0 <= #[trigger] (l[i].tag.1)@[k] < 16
        &&& forall|i: int, j: int|
            0 <= i < j < l.len() ==> !((#[trigger] l[i].tag).0@ == (#[trigger] l[j].tag).0@
                && l[i].tag.1@[0] == l[j].tag.1@[0] && l[i].tag.1@[1] == l[j].tag.1@[1]
                && l[i].tag.1@[2] == l[j].tag.1@[2] && l[i].tag.1@[3] == l[j].tag.1@[3])
    }

    pub fn new() -> (r: UserStore)
        ensures
            r.users@ =~= Seq::<User>::empty(),
            r.wf(),
    {
        UserStore { users: Vec::new() }
    }

    /// The user a verified identity resolves to; `None` where no row ever
    /// carried this id.
    pub fn get(&self, id: u64) -> (r: Option<&User>)
        ensures
            match r {
                Some(u) => id < self.users@.len() && *u == self.users@[id as int],
                None => id >= self.users@.len(),
            },
    {
        let n = self.users.len();
        if id < n as u64 {
            Some(&self.users[id as usize])
        } else {
            None
        }
    }

    /// The index of the user with this email, if any.
    fn find_by_email(&self, email: &String) -> (r: Option<usize>)
        ensures
            match r {
                Some(i) => i < self.users@.len() && spec_find_email(self.users@, email@)
                    == Some(i as int),
                None => spec_find_email(self.users@, email@) is None,
            },
    {
        let n = self.users.len();
        let mut i: usize = 0;
        while i < n
            invariant
                0 <= i <= n == self.users@.len(),
                find_email_from(self.users@, email@, 0) == find_email_from(
                    self.users@,
                    email@,
                    i as int,
                ),
            decreases n - i,
        {
            if self.users[i].email.eq(email) {
                return Some(i);
            }
            i += 1;
        }
        None
    }

    /// Is this (name, discriminator) pair already in use?
    fn tag_taken(&self, name: &String, a: i32, b: i32, c: i32, d: i32) -> (r: bool)
        ensures
            r == spec_tag_taken(self.users@, name@, a as int, b as int, c as int, d as int),
    {
        let n = self.users.len();
        let mut i: usize = 0;
        while i < n
            invariant
                0 <= i <= n == self.users@.len(),
                forall|k: int|
                    0 <= k < i ==> !((#[trigger] self.users@[k].tag).0@ == name@
                        && self.users@[k].tag.1@[0] == a && self.users@[k].tag.1@[1] == b
                        && self.users@[k].tag.1@[2] == c && self.users@[k].tag.1@[3] == d),
            decreases n - i,
        {
            let u = &self.users[i];
            if u.tag.0.eq(name) && u.tag.1[0] == a && u.tag.1[1] == b && u.tag.1[2] == c
                && u.tag.1[3] == d {
                return true;
            }
            i += 1;
        }
        false
    }

    /// Looks up the stored hash by email and compares the password against
    /// it with bcrypt's slow, salt-recovering verification. The owner id
    /// comes back only on a match; a missing user, a failed comparison and
    /// an unreadable stored hash are indistinguishable.
    pub fn verify_credentials(&self, email: &String, password: &str) -> (r: Option<u64>)
        ensures
            r == match spec_find_email(self.users@, email@) {
                None => None::<u64>,
                Some(i) => {
                    if bcrypt_check(password.spec_bytes(), self.users@[i].password_hash@)
                        == Some(true) {
                        Some(self.users@[i].id)
                    } else {
                        None::<u64>
                    }
                },
            },
    {
        let i = match self.find_by_email(email) {
            Some(i) => i,
            None => {
                return None;
            },
        };
        let user = &self.users[i];
        match bcrypt_verify(password.as_bytes(), user.password_hash.as_str()) {
            Some(true) => Some(user.id),
            Some(false) => None,
            None => None,
        }
    }

    /// Allocates a discriminator for `tag_name` that no user of that name
    /// carries: a bounded number of random draws, then an exhaustive sweep,
    /// so allocation cannot loop forever under contention. `None` exactly
    /// when every one of the 65536 discriminators is taken for this name.
    pub fn make_tag(&self, tag_name: &String) -> (r: Option<[i32; 4]>)
        ensures
            match r {
                Some(dd) => {
                    &&& forall|k: int| 0 <= k < 4 ==> 0 <= #[trigger] dd@[k] < 16
                    &&& !spec_tag_taken(
                        self.users@,
                        tag_name@,
                        dd@[0] as int,
                        dd@[1] as int,
                        dd@[2] as int,
                        dd@[3] as int,
                    )
                },
                None => forall|a: int, b: int, c: int, d: int|
                    0 <= a < 16 && 0 <= b < 16 && 0 <= c < 16 && 0 <= d < 16
                        ==> spec_tag_taken(self.users@, tag_name@, a, b, c, d),
            },
    {
        let mut tries: usize = 0;
        while tries < 8
            invariant
                tries <= 8,
            decreases 8 - tries,
        {
            let draw: u16 = rand::random();
            let v = draw as u32;
            let dd = tag_digits(v);
            if !self.tag_taken(tag_name, dd[0], dd[1], dd[2], dd[3]) {
                return Some(dd);
            }
            tries += 1;
        }
        let mut v: u32 = 0;
        while v < 65536
            invariant
                0 <= v <= 65536,
                forall|w: int|
                    0 <= w < v ==> spec_tag_taken(
                        self.users@,
                        tag_name@,
                        tag_digit(w, 0),
                        tag_digit(w, 1),
                        tag_digit(w, 2),
                        tag_digit(w, 3),
                    ),
            decreases 65536 - v,
        {
            let dd = tag_digits(v);
            if !self.tag_taken(tag_name, dd[0], dd[1], dd[2], dd[3]) {
                return Some(dd);
            }
            v += 1;
        }
        proof {
            assert forall|a: int, b: int, c: int, d: int|
                0 <= a < 16 && 0 <= b < 16 && 0 <= c < 16 && 0 <= d
                    < 16 implies spec_tag_taken(self.users@, tag_name@, a, b, c, d) by {
                lemma_tag_digits(a, b, c, d);
                let w = a * 4096 + b * 256 + c * 16 + d;
                assert(spec_tag_taken(
                    self.users@,
                    tag_name@,
                    tag_digit(w, 0),
                    tag_digit(w, 1),
                    tag_digit(w, 2),
                    tag_digit(w, 3),
                ));
            }
        }
        None
    }

    /// Registers a new user: fails on a taken email (or a fully exhausted
    /// tag) with the already-exists outcome, hashes the password before
    /// storing it (the plaintext is never stored), and assigns a fresh
    /// collision-checked discriminator. New users start offline with the
    /// default theme and no badges.
    pub fn register(
        &mut self,
        email: &String,
        password: &str,
        tag_name: &String,
        display_name: &String,
    ) -> (r: Result<u64, AuthError>)
        ensures
            r == Err::<u64, AuthError>(AuthError::AlreadyRegistered) <==> (spec_find_email(
                old(self).users@,
                email@,
            ) is Some || forall|a: int, b: int, c: int, d: int|
                0 <= a < 16 && 0 <= b < 16 && 0 <= c < 16 && 0 <= d < 16 ==> spec_tag_taken(
                    old(self).users@,
                    tag_name@,
                    a,
                    b,
                    c,
                    d,
                )),
            r is Err ==> final(self).users@ == old(self).users@ && (r == Err::<
                u64,
                AuthError,
            >(AuthError::AlreadyRegistered) || r == Err::<u64, AuthError>(
                AuthError::StorageUnavailable,
            )),
            match r {
                Ok(id) => {
                    let l0 = old(self).users@;
                    let l1 = final(self).users@;
                    let new = l1.last();
                    &&& spec_find_email(l0, email@) is None
                    &&& id == l0.len() as u64
                    &&& l1.len() == l0.len() + 1
                    &&& l1.subrange(0, l0.len() as int) == l0
                    &&& new.id == id
                    &&& new.email@ == email@
                    &&& new.display_name@ == display_name@
                    &&& new.tag.0@ == tag_name@
                    &&& forall|k: int| 0 <= k < 4 ==> 0 <= #[trigger] new.tag.1@[k] < 16
                    &&& !spec_tag_taken(
                        l0,
                        tag_name@,
                        new.tag.1@[0] as int,
                        new.tag.1@[1] as int,
                        new.tag.1@[2] as int,
                        new.tag.1@[3] as int,
                    )
                    &&& bcrypt_check(password.spec_bytes(), new.password_hash@) == Some(true)
                    &&& new.badges@.len() == 0
                    &&& new.status == Status::Offline
                    &&& new.theme == Theme::Dark
                },
                Err(_) => true,
            },
            old(self).wf() ==> final(self).wf(),
    {
        let h = match bcrypt_hash(password.as_bytes(), SALT_ROUNDS) {
            Some(h) => h,
            None => {
                if let Some(_) = self.find_by_email(email) {
                    return Err(AuthError::AlreadyRegistered);
                }
                if self.make_tag(tag_name).is_none() {
                    return Err(AuthError::AlreadyRegistered);
                }
                return Err(AuthError::StorageUnavailable);
            },
        };
        self.register_hashed(email, &h, tag_name, display_name)
    }

    /// The registration step after password hashing, owed success exactly:
    /// it fails if and only if the email is taken or every discriminator of
    /// the requested tag is, and otherwise appends the new user around the
    /// given stored hash.
    pub fn register_hashed(
        &mut self,
        email: &String,
        password_hash: &String,
        tag_name: &String,
        display_name: &String,
    ) -> (r: Result<u64, AuthError>)
        ensures
            r is Err <==> (spec_find_email(old(self).users@, email@) is Some || forall|
                a: int,
                b: int,
                c: int,
                d: int,
            |
                0 <= a < 16 && 0 <= b < 16 && 0 <= c < 16 && 0 <= d < 16 ==> spec_tag_taken(
                    old(self).users@,
                    tag_name@,
                    a,
                    b,
                    c,
                    d,
                )),
            r is Err ==> r == Err::<u64, AuthError>(AuthError::AlreadyRegistered),
            r is Err ==> final(self).users@ == old(self).users@,
            match r {
                Ok(id) => {
                    let l0 = old(self).users@;
                    let l1 = final(self).users@;
                    let new = l1.last();
                    &&& spec_find_email(l0, email@) is None
                    &&& id == l0.len() as u64
                    &&& l1.len() == l0.len() + 1
                    &&& l1.subrange(0, l0.len() as int) == l0
                    &&& new.id == id
                    &&& new.email@ == email@
                    &&& new.display_name@ == display_name@
                    &&& new.tag.0@ == tag_name@
                    &&& forall|k: int| 0 <= k < 4 ==> 0 <= #[trigger] new.tag.1@[k] < 16
                    &&& !spec_tag_taken(
                        l0,
                        tag_name@,
                        new.tag.1@[0] as int,
                        new.tag.1@[1] as int,
                        new.tag.1@[2] as int,
                        new.tag.1@[3] as int,
                    )
                    &&& new.password_hash@ == password_hash@
                    &&& new.badges@.len() == 0
                    &&& new.status == Status::Offline
                    &&& new.theme == Theme::Dark
                },
                Err(_) => true,
            },
            old(self).wf() ==> final(self).wf(),
    {
        if let Some(_) = self.find_by_email(email) {
            return Err(AuthError::AlreadyRegistered);
        }
        let dd = match self.make_tag(tag_name) {
            Some(dd) => dd,
            None => {
                return Err(AuthError::AlreadyRegistered);
            },
        };
        let id = self.users.len() as u64;
        let user = User {
            id,
            tag: (tag_name.clone(), dd),
            display_name: display_name.clone(),
            email: email.clone(),
            password_hash: password_hash.clone(),
            badges: Vec::new(),
            status: Status::Offline,
            theme: Theme::Dark,
        };
        self.users.push(user);
        proof {
            assert(final(self).users@.subrange(0, old(self).users@.len() as int) =~= old(
                self,
            ).users@);
            if old(self).wf() {
                lemma_find_email_none(old(self).users@, email@, 0);
                assert(self.wf());
            }
        }
        Ok(id)
    }
}

/// The cost factor of every stored password hash.
pub const SALT_ROUNDS: u32 = 10;

/// Digit `k` (most significant first) of `v` written in four hex digits.
pub open spec fn tag_digit(v: int, k: int) -> int {
    if k == 0 {
        v / 4096
    } else if k == 1 {
        (v / 256) % 16
    } else if k == 2 {
        (v / 16) % 16
    } else {
        v % 16
    }
}

/// Writing four hex digits and reading them back is the identity.
proof fn lemma_tag_digits(a: int, b: int, c: int, d: int)
    requires
        0 <= a < 16,
        0 <= b < 16,
        0 <= c < 16,
        0 <= d < 16,
    ensures
        ({
            let v = a * 4096 + b * 256 + c * 16 + d;
            &&& 0 <= v < 65536
            &&& tag_digit(v, 0) == a
            &&& tag_digit(v, 1) == b
            &&& tag_digit(v, 2) == c
            &&& tag_digit(v, 3) == d
        }),
{
    let v = a * 4096 + b * 256 + c * 16 + d;
    vstd::arithmetic::div_mod::lemma_fundamental_div_mod_converse(
        v,
        4096,
        a,
        b * 256 + c * 16 + d,
    );
    vstd::arithmetic::div_mod::lemma_fundamental_div_mod_converse(
        v,
        256,
        a * 16 + b,
        c * 16 + d,
    );
    vstd::arithmetic::div_mod::lemma_fundamental_div_mod_converse(a * 16 + b, 16, a, b);
    vstd::arithmetic::div_mod::lemma_fundamental_div_mod_converse(
        v,
        16,
        a * 256 + b * 16 + c,
        d,
    );
    vstd::arithmetic::div_mod::lemma_fundamental_div_mod_converse(
        a * 256 + b * 16 + c,
        16,
        a * 16 + b,
        c,
    );
}

/// The four hex digits of `v`, most significant first.
fn tag_digits(v: u32) -> (r: [i32; 4])
    requires
        v < 65536,
    ensures
        r@[0] == tag_digit(v as int, 0),
        r@[1] == tag_digit(v as int, 1),
        r@[2] == tag_digit(v as int, 2),
        r@[3] == tag_digit(v as int, 3),
        forall|k: int| 0 <= k < 4 ==> 0 <= #[trigger] r@[k] < 16,
{
    let r: [i32; 4] = [
        (v / 4096) as i32,
        ((v / 256) % 16) as i32,
        ((v / 16) % 16) as i32,
        (v % 16) as i32,
    ];
    r
}

/// Where no user at or after `j` has the email, none of them matches it.
proof fn lemma_find_email_none(l: Seq<User>, email: Seq<char>, j: int)
    requires
        0 <= j <= l.len(),
        find_email_from(l, email, j) is None,
    ensures
        forall|k: int| j <= k < l.len() ==> (#[trigger] l[k].email)@ != email,
    decreases l.len() - j,
{
    if j < l.len() {
        lemma_find_email_none(l, email, j + 1);
    }
}

} // verus!
