use vstd::prelude::*;

use crate::config::token_expiry;
use crate::decimal::{decimal, decimal_string, lemma_decimal_value};
use crate::errors::{ApiError, BAD_REQUEST, INTERNAL_SERVER_ERROR, NOT_FOUND, UNAUTHORIZED};
use crate::hash::{bcrypt_verdict, hash_password, verify_password};
use crate::jwt::{
    claims_text, expiry, generar_token, lemma_token_valid_until_expiry, signed_token, subject_ok,
    token_accepted, verified_payload, Claims,
};
use crate::store::{
    first_with_email, has_email, has_id, id_at, text_or, Model, UserStore, UserView,
};
use crate::text::{blank, i32_value, is_blank, parse_i32};

verus! {

/// Login request: the address and the raw password.
pub struct LoginDto {
    pub email: String,
    pub password: String,
}

/// Registration request.
pub struct CreateUserDto {
    pub name: String,
    pub email: String,
    pub password: String,
}

/// Update request: only the fields given are set.
pub struct UpdateUserDto {
    pub name: Option<String>,
    pub email: Option<String>,
    pub password: Option<String>,
}

/// The summary of a user that a login answers with.
#[derive(Debug)]
pub struct UserInfo {
    pub id: i32,
    pub email: String,
    pub nombre: String,
}

/// A successful login: a bearer token and who it is for.
#[derive(Debug)]
pub struct LoginResponse {
    pub success: bool,
    pub message: String,
    pub token: String,
    pub usuario: UserInfo,
}

/// A user as responses show it: every field but the password hash.
#[derive(Debug)]
pub struct PublicUser {
    pub id: i32,
    pub name: String,
    pub email: String,
    pub created_at: i64,
    pub updated_at: i64,
}

pub struct PublicView {
    pub id: int,
    pub name: Seq<char>,
    pub email: Seq<char>,
    pub created_at: int,
    pub updated_at: int,
}

impl View for PublicUser {
    type V = PublicView;

    open spec fn view(&self) -> PublicView {
        PublicView {
            id: self.id as int,
            name: self.name@,
            email: self.email@,
            created_at: self.created_at as int,
            updated_at: self.updated_at as int,
        }
    }
}

/// The projection of a stored record that leaves the password hash out.
pub open spec fn public_of(u: UserView) -> PublicView {
    PublicView {
        id: u.id,
        name: u.name,
        email: u.email,
        created_at: u.created_at,
        updated_at: u.updated_at,
    }
}

pub open spec fn missing_credentials_message() -> Seq<char> {
    "El email y la contraseña son requeridos"@
}

pub open spec fn bad_credentials_message() -> Seq<char> {
    "Credenciales inválidas"@
}

pub open spec fn hashing_failed_message() -> Seq<char> {
    "Error al procesar la contraseña"@
}

pub open spec fn token_failed_message() -> Seq<char> {
    "Error al generar el token"@
}

pub open spec fn not_found_message() -> Seq<char> {
    "Usuario no encontrado"@
}

pub open spec fn bad_id_message() -> Seq<char> {
    "ID de usuario inválido"@
}

pub open spec fn store_full_message() -> Seq<char> {
    "No quedan identificadores libres"@
}

/// The user that a login with `email` checks the password against.
pub open spec fn login_candidate(users: Seq<UserView>, email: Seq<char>) -> int {
    choose|i: int| first_with_email(users, email, i)
}

/// The status code and message with which a login is refused before any token
/// is made, or `None` where the credentials check out.
pub open spec fn login_refusal(users: Seq<UserView>, email: Seq<char>, password: Seq<char>) -> Option<
    (u16, Seq<char>),
> {
    if blank(email) || blank(password) {
        Some((BAD_REQUEST, missing_credentials_message()))
    } else if !has_email(users, email) {
        Some((UNAUTHORIZED, bad_credentials_message()))
    } else {
        match bcrypt_verdict(password, users[login_candidate(users, email)].password) {
            Some(true) => None,
            Some(false) => Some((UNAUTHORIZED, bad_credentials_message())),
            None => Some((INTERNAL_SERVER_ERROR, hashing_failed_message())),
        }
    }
}

proof fn lemma_first_unique(users: Seq<UserView>, email: Seq<char>, i: int)
    requires
        first_with_email(users, email, i),
    ensures
        has_email(users, email),
        login_candidate(users, email) == i,
{
    let j = login_candidate(users, email);
    assert(first_with_email(users, email, j));
    if j < i {
        assert(users[j].email != email);
    } else if i < j {
        assert(users[i].email != email);
    }
}

fn error_with(message: &str, code: u16) -> (r: ApiError)
    ensures
        r.mensaje@ == message@,
        r.codigo_estado == code,
{
    ApiError::new(String::from_str(message), code)
}

fn public_user(u: &Model) -> (r: PublicUser)
    ensures
        r@ == public_of(u@),
{
    PublicUser {
        id: u.id,
        name: u.name.clone(),
        email: u.email.clone(),
        created_at: u.created_at,
        updated_at: u.updated_at,
    }
}

/// Checks a login and issues a token for the user it names.
///
/// Blank fields are a bad request. An unknown address and a wrong password
/// are refused with one and the same unauthorized error. The token names
/// the user's identifier in decimal and expires `ttl_hours` after `now`;
/// where that expiry does not fit in a `u64`, no token is made and the answer
/// is the token error.
pub fn login(
    store: &UserStore,
    login_data: &LoginDto,
    secret: Option<&str>,
    ttl_hours: u64,
    now: u64,
) -> (r: Result<LoginResponse, ApiError>)
    requires
        store.wf(),
    ensures
        login_refusal(store@, login_data.email@, login_data.password@) matches Some((c, m)) ==> (r
            matches Err(e) && e.codigo_estado == c && e.mensaje@ == m),
        login_refusal(store@, login_data.email@, login_data.password@) is None ==> (r matches Err(
            e,
        ) ==> e.codigo_estado == INTERNAL_SERVER_ERROR && e.mensaje@ == token_failed_message()),
        login_refusal(store@, login_data.email@, login_data.password@) is None && secret is Some
            && expiry(now as nat, ttl_hours as nat) <= u64::MAX ==> r is Ok,
        r matches Ok(resp) ==> {
            let u = store@[login_candidate(store@, login_data.email@)];
            &&& login_refusal(store@, login_data.email@, login_data.password@) is None
            &&& has_email(store@, login_data.email@)
            &&& resp.success
            &&& resp.usuario.id == u.id && resp.usuario.email@ == u.email && resp.usuario.nombre@
                == u.name
            &&& u.id >= 1
            &&& secret matches Some(k) && {
                let claims = claims_text(decimal(u.id as nat), expiry(now as nat, ttl_hours as nat));
                &&& resp.token@ == signed_token(claims, k@)
                &&& verified_payload(resp.token@, k@) == Some(claims)
            }
        },
{
    let email = login_data.email.as_str();
    let password = login_data.password.as_str();
    if is_blank(email) || is_blank(password) {
        return Err(error_with("El email y la contraseña son requeridos", BAD_REQUEST));
    }
    let usuario = match store.find_by_email(email) {
        Some(u) => u,
        None => return Err(error_with("Credenciales inválidas", UNAUTHORIZED)),
    };
    proof {
        let i = choose|i: int| first_with_email(store@, email@, i) && store@[i] == usuario@;
        lemma_first_unique(store@, email@, i);
        store.lemma_ids_ordered();
    }
    match verify_password(password, usuario.password.as_str()) {
        Err(_) => Err(error_with("Error al procesar la contraseña", INTERNAL_SERVER_ERROR)),
        Ok(false) => Err(error_with("Credenciales inválidas", UNAUTHORIZED)),
        Ok(true) => {
            if token_expiry(now, ttl_hours).is_none() {
                return Err(error_with("Error al generar el token", INTERNAL_SERVER_ERROR));
            }
            let subject = decimal_string(usuario.id as u64);
            proof {
                lemma_decimal_value(usuario.id as nat);
            }
            match generar_token(subject.as_str(), secret, ttl_hours, now) {
                Ok(token) => Ok(
                    LoginResponse {
                        success: true,
                        message: String::from_str("Inicio de sesión exitoso"),
                        token,
                        usuario: UserInfo {
                            id: usuario.id,
                            email: usuario.email,
                            nombre: usuario.name,
                        },
                    },
                ),
                Err(_) => Err(error_with("Error al generar el token", INTERNAL_SERVER_ERROR)),
            }
        },
    }
}

/// Registers a user: hashes the password at `cost` and stores the record,
/// stamped with `now` as creation and update time.
pub fn create_user(store: &mut UserStore, user_data: CreateUserDto, cost: u32, now: i64) -> (r:
    Result<PublicUser, ApiError>)
    requires
        old(store).wf(),
    ensures
        final(store).wf(),
        r is Err ==> final(store)@ == old(store)@,
        r matches Err(e) ==> e.codigo_estado == INTERNAL_SERVER_ERROR,
        cost < 4 || cost > 31 ==> (r matches Err(e) && e.mensaje@ == hashing_failed_message()),
        !old(store).has_room() ==> r is Err,
        old(store).has_room() ==> (r matches Err(e) ==> e.mensaje@ == hashing_failed_message()),
        r matches Ok(p) ==> exists|u: UserView|
            {
                &&& final(store)@ == old(store)@.push(u)
                &&& p@ == public_of(u)
                &&& u.name == user_data.name@ && u.email == user_data.email@
                &&& bcrypt_verdict(user_data.password@, u.password) == Some(true)
                &&& u.created_at == now && u.updated_at == now
                &&& u.id >= 1 && !has_id(old(store)@, u.id)
            },
{
    let hashed = match hash_password(user_data.password.as_str(), cost) {
        Ok(h) => h,
        Err(_) => return Err(error_with("Error al procesar la contraseña", INTERNAL_SERVER_ERROR)),
    };
    match store.insert(user_data.name, user_data.email, hashed, now) {
        Some(u) => Ok(public_user(&u)),
        None => Err(error_with("No quedan identificadores libres", INTERNAL_SERVER_ERROR)),
    }
}

/// Every user, in store order, without password hashes.
pub fn get_users(store: &UserStore) -> (r: Vec<PublicUser>)
    ensures
        r@.len() == store@.len(),
        forall|i: int| 0 <= i < r@.len() ==> #[trigger] r@[i]@ == public_of(store@[i]),
{
    let all = store.all();
    let mut r: Vec<PublicUser> = Vec::new();
    let mut i: usize = 0;
    while i < all.len()
        invariant
            i <= all@.len(),
            all@.map_values(|u: Model| u@) == store@,
            r@.len() == i,
            forall|k: int| 0 <= k < i ==> #[trigger] r@[k]@ == public_of(store@[k]),
        decreases all.len() - i,
    {
        let p = public_user(&all[i]);
        proof {
            assert(all@.map_values(|u: Model| u@)[i as int] == all@[i as int]@);
        }
        r.push(p);
        i = i + 1;
    }
    proof {
        assert(all@.map_values(|u: Model| u@).len() == all@.len());
    }
    r
}

/// The user with identifier `id`, without password hash.
pub fn get_user(store: &UserStore, id: i32) -> (r: Result<PublicUser, ApiError>)
    requires
        store.wf(),
    ensures
        r is Err <==> !has_id(store@, id as int),
        r matches Err(e) ==> e.codigo_estado == NOT_FOUND && e.mensaje@ == not_found_message(),
        r matches Ok(p) ==> exists|i: int| id_at(store@, id as int, i) && p@ == public_of(store@[i]),
{
    match store.find(id) {
        Some(u) => Ok(public_user(&u)),
        None => Err(error_with("Usuario no encontrado", NOT_FOUND)),
    }
}

/// Sets the given fields of user `id`, hashing a new password at `cost`,
/// and stamps `now` as update time.
pub fn update_user(
    store: &mut UserStore,
    id: i32,
    user_data: UpdateUserDto,
    cost: u32,
    now: i64,
) -> (r: Result<PublicUser, ApiError>)
    requires
        old(store).wf(),
    ensures
        final(store).wf(),
        r is Err ==> final(store)@ == old(store)@,
        !has_id(old(store)@, id as int) ==> (r matches Err(e) && e.codigo_estado == NOT_FOUND
            && e.mensaje@ == not_found_message()),
        has_id(old(store)@, id as int) ==> (r matches Err(e) ==> e.codigo_estado
            == INTERNAL_SERVER_ERROR && user_data.password is Some),
        has_id(old(store)@, id as int) && user_data.password is None ==> r is Ok,
        has_id(old(store)@, id as int) && user_data.password is Some && (cost < 4 || cost > 31)
            ==> (r matches Err(e) && e.codigo_estado == INTERNAL_SERVER_ERROR && e.mensaje@
            == hashing_failed_message()),
        r matches Ok(p) ==> exists|i: int|
            {
                let before = old(store)@[i];
                let after = final(store)@[i];
                &&& #[trigger] id_at(old(store)@, id as int, i)
                &&& final(store)@ == old(store)@.update(i, after)
                &&& after.id == before.id && after.created_at == before.created_at
                &&& after.name == text_or(user_data.name, before.name)
                &&& after.email == text_or(user_data.email, before.email)
                &&& after.updated_at == now
                &&& match user_data.password {
                    Some(pw) => bcrypt_verdict(pw@, after.password) == Some(true),
                    None => after.password == before.password,
                }
                &&& p@ == public_of(after)
            },
{
    if store.find(id).is_none() {
        return Err(error_with("Usuario no encontrado", NOT_FOUND));
    }
    let password = match user_data.password {
        Some(pw) => match hash_password(pw.as_str(), cost) {
            Ok(h) => Some(h),
            Err(_) => {
                return Err(error_with("Error al procesar la contraseña", INTERNAL_SERVER_ERROR));
            },
        },
        None => None,
    };
    match store.update(id, user_data.name, user_data.email, password, now) {
        Some(u) => Ok(public_user(&u)),
        None => Err(error_with("Usuario no encontrado", NOT_FOUND)),
    }
}

/// Deletes user `id`.
pub fn delete_user(store: &mut UserStore, id: i32) -> (r: Result<(), ApiError>)
    requires
        old(store).wf(),
    ensures
        final(store).wf(),
        r is Ok <==> has_id(old(store)@, id as int),
        r matches Err(e) ==> e.codigo_estado == NOT_FOUND && e.mensaje@ == not_found_message()
            && final(store)@ == old(store)@,
        r is Ok ==> exists|i: int|
            id_at(old(store)@, id as int, i) && final(store)@ == old(store)@.remove(i),
{
    if store.remove(id) {
        Ok(())
    } else {
        Err(error_with("Usuario no encontrado", NOT_FOUND))
    }
}

/// The profile of the user that validated claims name.
pub fn perfil(store: &UserStore, claims: &Claims) -> (r: Result<PublicUser, ApiError>)
    requires
        store.wf(),
    ensures
        i32_value(claims.sub@) is None ==> (r matches Err(e) && e.codigo_estado == BAD_REQUEST
            && e.mensaje@ == bad_id_message()),
        i32_value(claims.sub@) matches Some(id) ==> {
            &&& r is Err <==> !has_id(store@, id)
            &&& r matches Err(e) ==> e.codigo_estado == NOT_FOUND && e.mensaje@
                == not_found_message()
            &&& r matches Ok(p) ==> exists|i: int| id_at(store@, id, i) && p@ == public_of(store@[i])
        },
{
    let id = match parse_i32(claims.sub.as_str()) {
        Some(id) => id,
        None => return Err(error_with("ID de usuario inválido", BAD_REQUEST)),
    };
    get_user(store, id)
}

/// A login with an unknown address and one with a wrong password are
/// refused with the same status and the same message.
pub proof fn lemma_uniform_refusal(
    users: Seq<UserView>,
    email: Seq<char>,
    password: Seq<char>,
)
    requires
        !blank(email),
        !blank(password),
        !has_email(users, email) || bcrypt_verdict(
            password,
            users[login_candidate(users, email)].password,
        ) == Some(false),
    ensures
        login_refusal(users, email, password) == Some((UNAUTHORIZED, bad_credentials_message())),
{
}

/// Registering a user whose address no earlier record holds, with a hash of
/// the password, lets a login with that address and password through; and a
/// token carrying that login's claims is accepted up to its expiry and names
/// the new identifier.
pub proof fn lemma_registered_user_logs_in(
    users: Seq<UserView>,
    u: UserView,
    password: Seq<char>,
    token: Seq<char>,
    secret: Seq<char>,
    exp: nat,
    now: nat,
)
    requires
        !has_email(users, u.email),
        !blank(u.email),
        !blank(password),
        bcrypt_verdict(password, u.password) == Some(true),
        u.id >= 1,
        exp <= u64::MAX,
        verified_payload(token, secret) == Some(claims_text(decimal(u.id as nat), exp)),
        now <= exp,
    ensures
        login_refusal(users.push(u), u.email, password) is None,
        users.push(u)[login_candidate(users.push(u), u.email)] == u,
        token_accepted(verified_payload(token, secret), now),
        forall|s: Seq<char>, e: nat|
            subject_ok(s) && verified_payload(token, secret) == Some(#[trigger] claims_text(s, e))
                ==> s == decimal(u.id as nat),
{
    let all = users.push(u);
    assert(first_with_email(all, u.email, users.len() as int)) by {
        assert forall|j: int| 0 <= j < users.len() implies all[j].email != u.email by {
            assert(all[j] == users[j]);
        }
    }
    lemma_first_unique(all, u.email, users.len() as int);
    lemma_decimal_value(u.id as nat);
    lemma_token_valid_until_expiry(token, secret, decimal(u.id as nat), exp, now);
}

} // verus!
