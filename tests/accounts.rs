use api_usuarios::account::{
    create_user, delete_user, get_user, get_users, login, perfil, CreateUserDto, LoginDto,
    UpdateUserDto, update_user,
};
use api_usuarios::auth::{authorize, AuthDecision};
use api_usuarios::jwt::{validar_token, Claims};
use api_usuarios::store::UserStore;

const SECRET: &str = "clave-de-prueba";
const NOW: u64 = 1_700_000_000;
const COST: u32 = 4;

fn register(store: &mut UserStore, name: &str, email: &str, password: &str) -> i32 {
    let dto = CreateUserDto {
        name: name.to_string(),
        email: email.to_string(),
        password: password.to_string(),
    };
    create_user(store, dto, COST, NOW as i64).unwrap().id
}

fn login_with(store: &UserStore, email: &str, password: &str) -> Result<api_usuarios::account::LoginResponse, api_usuarios::errors::ApiError> {
    let dto = LoginDto { email: email.to_string(), password: password.to_string() };
    login(store, &dto, Some(SECRET), 24, NOW)
}

#[test]
fn register_login_and_fetch_scenario() {
    let mut store = UserStore::new();
    let id = register(&mut store, "Ana", "ana@x.com", "secret123");
    assert!(id >= 1);
    let resp = login_with(&store, "ana@x.com", "secret123").unwrap();
    assert!(resp.success);
    assert!(!resp.token.is_empty());
    assert_eq!(resp.usuario.id, id);
    assert_eq!(resp.usuario.nombre, "Ana");
    let header = format!("Bearer {}", resp.token);
    let path = format!("/api/usuarios/{}", id);
    match authorize(&path, Some(&header), Some(SECRET), NOW) {
        AuthDecision::Authorized(_) => {}
        _ => panic!("token refused"),
    }
    let user = get_user(&store, id).unwrap();
    assert_eq!(user.name, "Ana");
    assert_eq!(user.email, "ana@x.com");
    match authorize(&path, None, Some(SECRET), NOW) {
        AuthDecision::Rejected(e) => assert_eq!(e.codigo_estado, 401),
        _ => panic!("request without token let through"),
    }
}

#[test]
fn login_token_names_registered_id() {
    let mut store = UserStore::new();
    register(&mut store, "Otro", "otro@x.com", "pw-otro");
    let id = register(&mut store, "Ana", "ana@x.com", "secret123");
    let resp = login_with(&store, "ana@x.com", "secret123").unwrap();
    let claims = validar_token(&resp.token, Some(SECRET), NOW + 10).unwrap();
    assert_eq!(claims.sub, id.to_string());
    assert_eq!(claims.exp, NOW + 24 * 3600);
}

#[test]
fn wrong_password_and_unknown_email_look_the_same() {
    let mut store = UserStore::new();
    register(&mut store, "Ana", "ana@x.com", "secret123");
    let a = login_with(&store, "ana@x.com", "wrong").unwrap_err();
    let b = login_with(&store, "nadie@x.com", "secret123").unwrap_err();
    assert_eq!(a.codigo_estado, 401);
    assert_eq!(a.codigo_estado, b.codigo_estado);
    assert_eq!(a.mensaje, b.mensaje);
    assert_eq!(a.mensaje, "Credenciales inválidas");
}

#[test]
fn login_requires_both_fields() {
    let store = UserStore::new();
    let e = login_with(&store, "  ", "x").unwrap_err();
    assert_eq!(e.codigo_estado, 400);
    assert_eq!(e.mensaje, "El email y la contraseña son requeridos");
    assert_eq!(login_with(&store, "a@x.com", "\t").unwrap_err().codigo_estado, 400);
}

#[test]
fn login_without_secret_is_internal_error() {
    let mut store = UserStore::new();
    register(&mut store, "Ana", "ana@x.com", "secret123");
    let dto = LoginDto { email: "ana@x.com".to_string(), password: "secret123".to_string() };
    let e = login(&store, &dto, None, 24, NOW).unwrap_err();
    assert_eq!(e.codigo_estado, 500);
    assert_eq!(e.mensaje, "Error al generar el token");
}

#[test]
fn login_with_expiry_past_u64_is_internal_error() {
    let mut store = UserStore::new();
    register(&mut store, "Ana", "ana@x.com", "secret123");
    let dto = LoginDto { email: "ana@x.com".to_string(), password: "secret123".to_string() };
    let e = login(&store, &dto, Some(SECRET), u64::MAX / 3600, NOW).unwrap_err();
    assert_eq!(e.codigo_estado, 500);
    assert_eq!(e.mensaje, "Error al generar el token");
    let wrong = LoginDto { email: "ana@x.com".to_string(), password: "otra".to_string() };
    assert_eq!(login(&store, &wrong, Some(SECRET), u64::MAX / 3600, NOW).unwrap_err().codigo_estado, 401);
}

#[test]
fn registration_assigns_increasing_ids_and_hides_hash() {
    let mut store = UserStore::new();
    let a = register(&mut store, "A", "a@x.com", "pa");
    let b = register(&mut store, "B", "b@x.com", "pb");
    assert_eq!(a, 1);
    assert_eq!(b, 2);
    let all = get_users(&store);
    assert_eq!(all.len(), 2);
    assert_eq!(all[0].name, "A");
    assert_eq!(all[1].email, "b@x.com");
    assert_eq!(all[1].created_at, NOW as i64);
    assert_eq!(get_users(&UserStore::new()).len(), 0);
}

#[test]
fn registration_with_bad_cost_fails() {
    let mut store = UserStore::new();
    let dto = CreateUserDto {
        name: "A".to_string(),
        email: "a@x.com".to_string(),
        password: "pa".to_string(),
    };
    let e = create_user(&mut store, dto, 2, 0).unwrap_err();
    assert_eq!(e.codigo_estado, 500);
    assert_eq!(store.len(), 0);
}

#[test]
fn get_unknown_user_is_not_found() {
    let store = UserStore::new();
    let e = get_user(&store, 9).unwrap_err();
    assert_eq!(e.codigo_estado, 404);
    assert_eq!(e.mensaje, "Usuario no encontrado");
}

#[test]
fn update_sets_only_given_fields() {
    let mut store = UserStore::new();
    let id = register(&mut store, "Ana", "ana@x.com", "secret123");
    let dto = UpdateUserDto { name: Some("Ana María".to_string()), email: None, password: None };
    let u = update_user(&mut store, id, dto, COST, 2_000_000_000).unwrap();
    assert_eq!(u.name, "Ana María");
    assert_eq!(u.email, "ana@x.com");
    assert_eq!(u.updated_at, 2_000_000_000);
    assert_eq!(u.created_at, NOW as i64);
    assert!(login_with(&store, "ana@x.com", "secret123").is_ok());
    let dto = UpdateUserDto { name: None, email: None, password: Some("nueva".to_string()) };
    update_user(&mut store, id, dto, COST, 2_000_000_001).unwrap();
    assert_eq!(login_with(&store, "ana@x.com", "secret123").unwrap_err().codigo_estado, 401);
    assert!(login_with(&store, "ana@x.com", "nueva").is_ok());
}

#[test]
fn update_unknown_user_is_not_found() {
    let mut store = UserStore::new();
    let dto = UpdateUserDto { name: Some("X".to_string()), email: None, password: None };
    assert_eq!(update_user(&mut store, 3, dto, COST, 0).unwrap_err().codigo_estado, 404);
}

#[test]
fn delete_reports_not_found_the_second_time() {
    let mut store = UserStore::new();
    let id = register(&mut store, "Ana", "ana@x.com", "secret123");
    assert!(delete_user(&mut store, id).is_ok());
    assert_eq!(delete_user(&mut store, id).unwrap_err().codigo_estado, 404);
    assert_eq!(get_user(&store, id).unwrap_err().codigo_estado, 404);
    let id2 = register(&mut store, "Bea", "bea@x.com", "pw");
    assert_ne!(id2, id);
}

#[test]
fn profile_reads_subject() {
    let mut store = UserStore::new();
    let id = register(&mut store, "Ana", "ana@x.com", "secret123");
    let ok = perfil(&store, &Claims { sub: id.to_string(), exp: NOW }).unwrap();
    assert_eq!(ok.email, "ana@x.com");
    let bad = perfil(&store, &Claims { sub: "abc".to_string(), exp: NOW }).unwrap_err();
    assert_eq!(bad.codigo_estado, 400);
    assert_eq!(bad.mensaje, "ID de usuario inválido");
    let missing = perfil(&store, &Claims { sub: "99".to_string(), exp: NOW }).unwrap_err();
    assert_eq!(missing.codigo_estado, 404);
}
