//! The people who use the service, and what each of them may do.

use crate::event::text_view;
use crate::oid::{id_views, ObjectId};
use crate::route::{post, table, Method, Route};
use vstd::prelude::*;
use vstd::string::StringExecFns;

verus! {

/// Said when the password is a single blank.
pub const PASSWORD_EMPTY: &'static str = "Password cannot be empty";

/// Said when no first name was given.
pub const FIRST_NAME_EMPTY: &'static str = "the first name cannot be empty";

/// Said when no surname was given.
pub const SURNAME_EMPTY: &'static str = "the surname cannot be empty";

/// Said when the password could not be hashed.
pub const HASHING_FAILED: &'static str = "the password could not be hashed";

/// Said when the password does not go with the stored hash.
pub const PASSWORD_WRONG: &'static str = "password wrong";

/// Said when there is no user of the given name.
pub const USER_NOT_KNOWN: &'static str = "user not known";

/// Said when someone who may not create users asks for one.
pub const MAY_NOT_CREATE_USERS: &'static str = "you need to be admin or be able to create users";

/// The Argon2 hash of `password` under `salt`, in the PHC string format, with
/// the parameters that the argon2 crate takes by default; `None` where the
/// crate refuses to hash.
pub uninterp spec fn argon2_hash(password: Seq<char>, salt: Seq<char>) -> Option<Seq<char>>;

/// Whether `password` goes with the hash `hash` in the PHC string format;
/// `None` where `hash` is no such string.
pub uninterp spec fn argon2_accepts(password: Seq<char>, hash: Seq<char>) -> Option<bool>;

/// The password that counts as none: a single blank.
pub open spec fn blank() -> Seq<char> {
    seq![' ']
}

/// The name under which a user logs in: surname, a dot, first name.
pub open spec fn username_of(firstname: Seq<char>, surname: Seq<char>) -> Seq<char> {
    surname + seq!['.'] + firstname
}

/// Why no account can be made of these values, if there is a reason: first
/// the password is looked at, then the first name, then the surname.
pub open spec fn refusal(firstname: Seq<char>, surname: Seq<char>, password: Seq<char>) -> Option<
    Seq<char>,
> {
    if password == blank() {
        Some(PASSWORD_EMPTY@)
    } else if firstname.len() == 0 {
        Some(FIRST_NAME_EMPTY@)
    } else if surname.len() == 0 {
        Some(SURNAME_EMPTY@)
    } else {
        None
    }
}

/// What making an account of these values comes to, by how hashing the
/// password went: a blank password is refused before anything is hashed, a
/// password that could not be hashed is refused next, and an account whose
/// names [`refusal`] turns down is refused for that reason.
pub open spec fn made_of(
    r: Result<User, &'static str>,
    firstname: Seq<char>,
    surname: Seq<char>,
    password: Seq<char>,
    hash: Option<Seq<char>>,
) -> bool {
    if password == blank() {
        r matches Err(reason) && reason@ == PASSWORD_EMPTY@
    } else {
        match hash {
            None => r matches Err(reason) && reason@ == HASHING_FAILED@,
            Some(password_hash) => match refusal(firstname, surname, password) {
                Some(why) => r matches Err(reason) && reason@ == why,
                None => r matches Ok(user) && user@.is_new(firstname, surname)
                    && user@.password_hash == password_hash,
            },
        }
    }
}

/// What giving a user a new password comes to, by how hashing it went.
pub open spec fn password_set(
    r: Option<()>,
    before: UserView,
    after: UserView,
    hash: Option<Seq<char>>,
) -> bool {
    match hash {
        Some(password_hash) => r is Some && after == (UserView { password_hash, ..before }),
        None => r is None && after == before,
    }
}

/// What a [`User`] stands for.
pub struct UserView {
    pub id: Seq<u8>,
    pub username: Seq<char>,
    pub password_hash: Seq<char>,
    pub is_active: bool,
    pub is_admin: bool,
    pub can_create_users: bool,
    pub editable_rooms: Seq<Seq<u8>>,
    pub firstname: Seq<char>,
    pub surname: Seq<char>,
    pub email: Option<Seq<char>>,
    pub phone_number: Option<Seq<char>>,
}

impl UserView {
    /// The account as it is when it has just been made for these names: it
    /// is active, has no rights, no rooms and no contact details.
    pub open spec fn is_new(self, firstname: Seq<char>, surname: Seq<char>) -> bool {
        &&& self.username == username_of(firstname, surname)
        &&& self.is_active
        &&& !self.is_admin
        &&& !self.can_create_users
        &&& self.editable_rooms == Seq::<Seq<u8>>::empty()
        &&& self.firstname == firstname
        &&& self.surname == surname
        &&& self.email is None
        &&& self.phone_number is None
    }

    /// Whether the user may change the room of this identifier.
    pub open spec fn may_edit(self, room_id: Seq<u8>) -> bool {
        self.is_admin || self.editable_rooms.contains(room_id)
    }
}

/// The name and the password that come with a request.
#[derive(Debug)]
pub struct UserData<'r> {
    pub username: &'r str,
    pub password: &'r str,
}

/// A user account.
#[derive(Debug)]
pub struct User {
    id: ObjectId,
    username: String,
    password_hash: String,
    is_active: bool,
    is_admin: bool,
    can_create_users: bool,
    editable_rooms: Vec<ObjectId>,
    firstname: String,
    surname: String,
    email: Option<String>,
    phone_number: Option<String>,
}

impl View for User {
    type V = UserView;

    closed spec fn view(&self) -> UserView {
        UserView {
            id: self.id@,
            username: self.username@,
            password_hash: self.password_hash@,
            is_active: self.is_active,
            is_admin: self.is_admin,
            can_create_users: self.can_create_users,
            editable_rooms: id_views(self.editable_rooms@),
            firstname: self.firstname@,
            surname: self.surname@,
            email: text_view(self.email),
            phone_number: text_view(self.phone_number),
        }
    }
}

impl User {
    /// A new account for these names under a fresh identifier, with the
    /// password hashed under a fresh salt. What comes of it is what
    /// [`made_of`] says for the hash under that salt.
    pub fn new(firstname: String, surname: String, password: String) -> (r: Result<
        User,
        &'static str,
    >)
        ensures
            exists|salt: Seq<char>|
                made_of(r, firstname@, surname@, password@, #[trigger] argon2_hash(password@, salt)),
    {
        let blank_password = String::from_str(" ");
        proof {
            reveal_strlit(" ");
            assert(blank_password@ =~= blank());
        }
        if password == blank_password {
            let r = Err(PASSWORD_EMPTY);
            assert(made_of(
                r,
                firstname@,
                surname@,
                password@,
                argon2_hash(password@, Seq::<char>::empty()),
            ));
            return r;
        }
        let salt = fresh_salt();
        let r = match hash_under(password.as_str(), salt.as_str()) {
            Some(password_hash) => {
                Self::with_password_hash(firstname, surname, password.as_str(), password_hash)
            },
            None => Err(HASHING_FAILED),
        };
        assert(made_of(r, firstname@, surname@, password@, argon2_hash(password@, salt@)));
        r
    }

    /// The new account for these names once the password has been hashed to
    /// `password_hash`, under a fresh identifier; refused for the reason that
    /// [`refusal`] gives.
    pub fn with_password_hash(
        firstname: String,
        surname: String,
        password: &str,
        password_hash: String,
    ) -> (r: Result<User, &'static str>)
        ensures
            made_of(r, firstname@, surname@, password@, Some(password_hash@)),
    {
        let blank_password = String::from_str(" ");
        proof {
            reveal_strlit(" ");
            reveal_strlit(".");
            assert(blank_password@ =~= blank());
        }
        if password.to_owned() == blank_password {
            return Err(PASSWORD_EMPTY);
        }
        let mut username = surname.clone();
        username.append(".");
        username.append(firstname.as_str());
        assert(username@ =~= username_of(firstname@, surname@));
        let user = User {
            id: ObjectId::new(),
            username,
            password_hash,
            is_active: true,
            is_admin: false,
            can_create_users: false,
            editable_rooms: Vec::new(),
            firstname,
            surname,
            email: None,
            phone_number: None,
        };
        assert(user@.editable_rooms =~= Seq::<Seq<u8>>::empty());
        validate_surname(validate_first_name(Ok(user)))
    }

    /// Lets the user in who was found under the name given, if the password
    /// goes with the stored hash. A stored hash that cannot be read goes with
    /// no password.
    pub fn login(found: Option<User>, password: String) -> (r: Result<User, &'static str>)
        ensures
            match found {
                Some(user) => if argon2_accepts(password@, user@.password_hash) == Some(true) {
                    r == Ok::<User, &'static str>(user)
                } else {
                    r matches Err(reason) && reason@ == PASSWORD_WRONG@
                },
                None => r matches Err(reason) && reason@ == USER_NOT_KNOWN@,
            },
    {
        match found {
            Some(user) => {
                match goes_with(password.as_str(), user.password_hash.as_str()) {
                    Some(true) => Ok(user),
                    _ => Err(PASSWORD_WRONG),
                }
            },
            None => Err(USER_NOT_KNOWN),
        }
    }

    /// The account that was stored with these values.
    pub fn restore(
        id: ObjectId,
        username: String,
        password_hash: String,
        is_active: bool,
        is_admin: bool,
        can_create_users: bool,
        editable_rooms: Vec<ObjectId>,
        firstname: String,
        surname: String,
        email: Option<String>,
        phone_number: Option<String>,
    ) -> (r: User)
        ensures
            r@ == (UserView {
                id: id@,
                username: username@,
                password_hash: password_hash@,
                is_active,
                is_admin,
                can_create_users,
                editable_rooms: id_views(editable_rooms@),
                firstname: firstname@,
                surname: surname@,
                email: text_view(email),
                phone_number: text_view(phone_number),
            }),
    {
        User {
            id,
            username,
            password_hash,
            is_active,
            is_admin,
            can_create_users,
            editable_rooms,
            firstname,
            surname,
            email,
            phone_number,
        }
    }

    /// The hash of the password, in the PHC string format.
    pub fn password_hash(&self) -> (r: &str)
        ensures
            r@ == self@.password_hash,
    {
        self.password_hash.as_str()
    }

    /// Whether the account is in use.
    pub fn is_active(&self) -> (r: bool)
        ensures
            r == self@.is_active,
    {
        self.is_active
    }

    /// Whether the user is an administrator.
    pub fn is_admin(&self) -> (r: bool)
        ensures
            r == self@.is_admin,
    {
        self.is_admin
    }

    /// Whether the user may create users without being an administrator.
    pub fn can_create_users(&self) -> (r: bool)
        ensures
            r == self@.can_create_users,
    {
        self.can_create_users
    }

    /// The rooms that were given to the user to change.
    pub fn editable_rooms(&self) -> (r: &Vec<ObjectId>)
        ensures
            id_views(r@) == self@.editable_rooms,
    {
        &self.editable_rooms
    }

    /// The first name.
    pub fn firstname(&self) -> (r: &str)
        ensures
            r@ == self@.firstname,
    {
        self.firstname.as_str()
    }

    /// The surname.
    pub fn surname(&self) -> (r: &str)
        ensures
            r@ == self@.surname,
    {
        self.surname.as_str()
    }

    /// The e-mail address, where one was given.
    pub fn email(&self) -> (r: Option<&String>)
        ensures
            match r {
                Some(text) => self@.email == Some(text@),
                None => self@.email is None,
            },
    {
        self.email.as_ref()
    }

    /// The telephone number, where one was given.
    pub fn phone_number(&self) -> (r: Option<&String>)
        ensures
            match r {
                Some(text) => self@.phone_number == Some(text@),
                None => self@.phone_number is None,
            },
    {
        self.phone_number.as_ref()
    }

    /// The identifier of the user.
    pub fn id(&self) -> (r: ObjectId)
        ensures
            r@ == self@.id,
    {
        self.id
    }

    /// The name under which the user logs in.
    pub fn name(&self) -> (r: &str)
        ensures
            r@ == self@.username,
    {
        self.username.as_str()
    }

    /// The field by which users are found in the store: the user name.
    pub fn index_name() -> (r: &'static str)
        ensures
            r@ == "username"@,
    {
        "username"
    }

    /// Whether the user may change the room of this identifier: an
    /// administrator may change every room, anyone else the rooms given to
    /// them.
    pub fn can_edit_room(&self, room_id: &ObjectId) -> (r: bool)
        ensures
            r == self@.may_edit(room_id@),
    {
        if self.is_admin {
            return true;
        }
        let mut i: usize = 0;
        while i < self.editable_rooms.len()
            invariant
                i <= self.editable_rooms@.len(),
                forall|j: int| 0 <= j < i ==> (#[trigger] self@.editable_rooms[j]) != room_id@,
            decreases self.editable_rooms@.len() - i,
        {
            if self.editable_rooms[i].same(room_id) {
                assert(self@.editable_rooms[i as int] == room_id@);
                return true;
            }
            i += 1;
        }
        false
    }

    /// Whether the user may create rooms: administrators may.
    pub fn can_create_rooms(&self) -> (r: bool)
        ensures
            r == self@.is_admin,
    {
        self.is_admin
    }
}

/// A new account for these names, made by a user who is an administrator or
/// may create users. Anyone else is told so; for the rest see [`User::new`].
pub fn create(by: &User, firstname: String, surname: String, password: String) -> (r: Result<
    User,
    &'static str,
>)
    ensures
        !(by@.is_admin || by@.can_create_users) ==> (r matches Err(reason) && reason@
            == MAY_NOT_CREATE_USERS@),
        by@.is_admin || by@.can_create_users ==> exists|salt: Seq<char>|
            made_of(r, firstname@, surname@, password@, #[trigger] argon2_hash(password@, salt)),
{
    if !by.is_admin && !by.can_create_users {
        return Err(MAY_NOT_CREATE_USERS);
    }
    User::new(firstname, surname, password)
}

/// Whether the user may have users deleted: administrators may.
pub fn delete(by: &User) -> (r: Option<()>)
    ensures
        r is Some <==> by@.is_admin,
{
    if !by.is_admin {
        return None;
    }
    Some(())
}

/// Changes the details of the user. A first name or surname is taken over
/// where one is given; the e-mail address and the telephone number are set
/// to what is given, also where that is nothing.
pub fn change(
    user: &mut User,
    firstname: Option<String>,
    surname: Option<String>,
    email: Option<String>,
    phone_number: Option<String>,
)
    ensures
        final(user)@ == (UserView {
            firstname: match firstname {
                Some(name) => name@,
                None => old(user)@.firstname,
            },
            surname: match surname {
                Some(name) => name@,
                None => old(user)@.surname,
            },
            email: text_view(email),
            phone_number: text_view(phone_number),
            ..old(user)@
        }),
{
    if let Some(firstname) = firstname {
        user.firstname = firstname;
    }
    if let Some(surname) = surname {
        user.surname = surname;
    }
    user.email = email;
    user.phone_number = phone_number;
}

/// Gives the user a new password, hashed under a fresh salt. An empty
/// password is refused, and so is one that could not be hashed; the user
/// then stays as it is.
pub fn update_password(user: &mut User, new_password: String) -> (r: Option<()>)
    ensures
        new_password@.len() == 0 ==> r is None && final(user)@ == old(user)@,
        new_password@.len() > 0 ==> exists|salt: Seq<char>|
            password_set(
                r,
                old(user)@,
                final(user)@,
                #[trigger] argon2_hash(new_password@, salt),
            ),
{
    if new_password.as_str().is_empty() {
        return None;
    }
    let salt = fresh_salt();
    let r = match hash_under(new_password.as_str(), salt.as_str()) {
        Some(password_hash) => {
            user.password_hash = password_hash;
            Some(())
        },
        None => None,
    };
    assert(password_set(r, old(user)@, user@, argon2_hash(new_password@, salt@)));
    r
}

/// The names one to a line: each name with a line feed behind it.
pub open spec fn lines(names: Seq<String>) -> Seq<char>
    decreases names.len(),
{
    if names.len() == 0 {
        Seq::<char>::empty()
    } else {
        lines(names.drop_last()) + names.last()@ + seq!['\n']
    }
}

/// The list of the rooms of a user, from the names of those rooms: one name
/// to a line.
pub fn get_rooms(names: &Vec<String>) -> (r: String)
    ensures
        r@ == lines(names@),
{
    let mut ret = String::new();
    let mut i: usize = 0;
    proof {
        reveal_strlit("\n");
        assert(names@.take(0) =~= Seq::<String>::empty());
    }
    while i < names.len()
        invariant
            i <= names@.len(),
            ret@ == lines(names@.take(i as int)),
            "\n"@ == seq!['\n'],
        decreases names@.len() - i,
    {
        proof {
            assert(names@.take(i + 1).drop_last() =~= names@.take(i as int));
            assert(names@.take(i + 1).last() == names@[i as int]);
        }
        ret.append(names[i].as_str());
        ret.append("\n");
        i += 1;
    }
    assert(names@.take(names@.len() as int) =~= names@);
    ret
}

/// Refuses an account without a first name; hands everything else on.
pub fn validate_first_name(user: Result<User, &'static str>) -> (r: Result<User, &'static str>)
    ensures
        match user {
            Ok(u) => if u@.firstname.len() == 0 {
                r matches Err(reason) && reason@ == FIRST_NAME_EMPTY@
            } else {
                r == user
            },
            Err(_) => r == user,
        },
{
    match user {
        Ok(u) => {
            if u.firstname.as_str().is_empty() {
                Err(FIRST_NAME_EMPTY)
            } else {
                Ok(u)
            }
        },
        Err(reason) => Err(reason),
    }
}

/// Refuses an account without a surname; hands everything else on.
pub fn validate_surname(user: Result<User, &'static str>) -> (r: Result<User, &'static str>)
    ensures
        match user {
            Ok(u) => if u@.surname.len() == 0 {
                r matches Err(reason) && reason@ == SURNAME_EMPTY@
            } else {
                r == user
            },
            Err(_) => r == user,
        },
{
    match user {
        Ok(u) => {
            if u.surname.as_str().is_empty() {
                Err(SURNAME_EMPTY)
            } else {
                Ok(u)
            }
        },
        Err(reason) => Err(reason),
    }
}

/// Calls password-hash, as argon2 hands it on: `SaltString::generate` on the
/// operating system's random numbers (`OsRng`), read as text with `as_str`.
///
/// Trusted for nothing: the salt is drawn at random.
#[verifier::external_body]
fn fresh_salt() -> String {
    let salt = argon2::password_hash::SaltString::generate(
        &mut argon2::password_hash::rand_core::OsRng,
    );
    salt.as_str().to_owned()
}

/// Calls argon2: `Argon2::default().hash_password` on the bytes of the
/// password and the salt that `SaltString::from_b64` reads from the text,
/// and writes the hash out with `to_string`.
///
/// Trusted: the outcome depends on the password and the salt alone.
#[verifier::external_body]
fn hash_under(password: &str, salt: &str) -> (r: Option<String>)
    ensures
        text_view(r) == argon2_hash(password@, salt@),
{
    let salt = argon2::password_hash::SaltString::from_b64(salt).ok()?;
    let hasher = argon2::Argon2::default();
    let hash = argon2::PasswordHasher::hash_password(&hasher, password.as_bytes(), &salt).ok()?;
    Some(hash.to_string())
}

/// Calls argon2: `Argon2::default().verify_password` on the bytes of the
/// password and the hash that `PasswordHash::new` reads from the text.
///
/// Trusted: the outcome depends on the password and the text alone.
#[verifier::external_body]
fn goes_with(password: &str, hash: &str) -> (r: Option<bool>)
    ensures
        r == argon2_accepts(password@, hash@),
{
    let hash = argon2::PasswordHash::new(hash).ok()?;
    let hasher = argon2::Argon2::default();
    Some(argon2::PasswordVerifier::verify_password(&hasher, password.as_bytes(), &hash).is_ok())
}

/// The routes for users: creating, deleting and reading a user, the rooms of
/// a user, checking a login, and changing the password or the details, all
/// with `POST`.
pub fn routes() -> (r: Vec<Route>)
    ensures
        table(r@) == seq![
            (Method::Post, "/create"@),
            (Method::Post, "/delete"@),
            (Method::Post, "/get"@),
            (Method::Post, "/get_rooms"@),
            (Method::Post, "/isvalid"@),
            (Method::Post, "/update_password"@),
            (Method::Post, "/change"@),
        ],
{
    let mut r: Vec<Route> = Vec::new();
    r.push(post("/create"));
    r.push(post("/delete"));
    r.push(post("/get"));
    r.push(post("/get_rooms"));
    r.push(post("/isvalid"));
    r.push(post("/update_password"));
    r.push(post("/change"));
    assert(table(r@) =~= seq![
        (Method::Post, "/create"@),
        (Method::Post, "/delete"@),
        (Method::Post, "/get"@),
        (Method::Post, "/get_rooms"@),
        (Method::Post, "/isvalid"@),
        (Method::Post, "/update_password"@),
        (Method::Post, "/change"@),
    ]);
    r
}

} // verus!
