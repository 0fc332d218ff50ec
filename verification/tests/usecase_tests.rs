use warikan::controllers::{GroupMutation, GroupQuery, PaymentMutation, PaymentQuery};
use warikan::entities::{AuthState, Claims, Group, GroupID, Payment, PaymentID, User, UserID};
use warikan::memory::MemoryRepository;
use warikan::repositories::Repository;
use warikan::usecases::{UseCase, UseCaseError};

fn claims(sub: &str) -> Claims {
    Claims {
        iss: String::from("https://issuer.example/"),
        sub: String::from(sub),
        aud: vec![String::from("warikan")],
        iat: 1,
        exp: 2,
        azp: String::from("client"),
        scope: String::from("openid"),
    }
}

fn authorized(sub: &str) -> AuthState {
    AuthState::Authorized(claims(sub))
}

fn group(id: &str, participants: &[&str]) -> Group {
    Group {
        id: GroupID::new(id),
        created_at: 0,
        title: String::from("trip"),
        participants: participants.iter().map(|p| UserID::new(p)).collect(),
    }
}

fn payment(id: &str, group: &str, creditor: &str, debtors: &[&str]) -> Payment {
    Payment {
        id: PaymentID::new(id),
        created_at: 0,
        title: String::from("dinner"),
        group: GroupID::new(group),
        creditor: UserID::new(creditor),
        debtors: debtors.iter().map(|d| UserID::new(d)).collect(),
    }
}

#[test]
fn create_group_unauthorized() {
    let mut usecase = UseCase::new(MemoryRepository::new());
    let auth = AuthState::UnAuthorized;
    assert!(usecase.create_group(String::from("trip"), &auth).is_err());
}

#[test]
fn create_group_authorized() {
    let mut usecase = UseCase::new(MemoryRepository::new());
    let auth = authorized("alice");
    let created = usecase.create_group(String::from("trip"), &auth).unwrap();
    assert_eq!(created.title, "trip");
    assert_eq!(created.participants, vec![UserID::new("alice")]);
}

#[test]
fn get_group_unauthorized_1() {
    let mut usecase = UseCase::new(MemoryRepository::new());
    usecase.repository.create_group(group("g1", &["alice"])).unwrap();
    let auth = AuthState::UnAuthorized;
    assert!(usecase.get_group(&GroupID::new("g1"), &auth).is_err());
}

#[test]
fn get_group_unauthorized_2() {
    let mut usecase = UseCase::new(MemoryRepository::new());
    usecase.repository.create_group(group("g1", &["alice"])).unwrap();
    let auth = authorized("mallory");
    let r = usecase.get_group(&GroupID::new("g1"), &auth);
    assert_eq!(r.unwrap_err(), UseCaseError::UnAuthorized);
}

#[test]
fn get_group_authorized() {
    let mut usecase = UseCase::new(MemoryRepository::new());
    usecase.repository.create_group(group("g1", &["alice"])).unwrap();
    let auth = authorized("alice");
    let got = usecase.get_group(&GroupID::new("g1"), &auth).unwrap();
    assert_eq!(got, group("g1", &["alice"]));
}

#[test]
fn get_group_absent_is_not_found() {
    let usecase = UseCase::new(MemoryRepository::new());
    let auth = authorized("alice");
    let r = usecase.get_group(&GroupID::new("nope"), &auth);
    assert_eq!(r.unwrap_err(), UseCaseError::NotFound);
}

#[test]
fn get_group_twice_same_result() {
    let mut usecase = UseCase::new(MemoryRepository::new());
    usecase.repository.create_group(group("g1", &["alice"])).unwrap();
    let auth = authorized("alice");
    let first = usecase.get_group(&GroupID::new("g1"), &auth).unwrap();
    let second = usecase.get_group(&GroupID::new("g1"), &auth).unwrap();
    assert_eq!(first, second);
}

#[test]
fn delete_group_unauthorized_1() {
    let mut usecase = UseCase::new(MemoryRepository::new());
    usecase.repository.create_group(group("g1", &["alice"])).unwrap();
    let auth = AuthState::UnAuthorized;
    assert!(usecase.delete_group(&GroupID::new("g1"), &auth).is_err());
}

#[test]
fn delete_group_unauthorized_2() {
    let mut usecase = UseCase::new(MemoryRepository::new());
    usecase.repository.create_group(group("g1", &["alice"])).unwrap();
    let auth = authorized("mallory");
    assert!(usecase.delete_group(&GroupID::new("g1"), &auth).is_err());
}

#[test]
fn delete_group_authorized() {
    let mut usecase = UseCase::new(MemoryRepository::new());
    usecase.repository.create_group(group("g1", &["alice"])).unwrap();
    usecase
        .repository
        .create_payment(payment("p1", "g1", "alice", &["bob"]))
        .unwrap();
    let auth = authorized("alice");
    assert!(usecase.delete_group(&GroupID::new("g1"), &auth).is_ok());
}

#[test]
fn delete_group_cascades_payments() {
    let mut usecase = UseCase::new(MemoryRepository::new());
    usecase.repository.create_group(group("g1", &["alice"])).unwrap();
    usecase
        .repository
        .create_payment(payment("p1", "g1", "alice", &["bob"]))
        .unwrap();
    usecase
        .repository
        .create_payment(payment("p2", "g1", "alice", &["carol"]))
        .unwrap();
    usecase.repository.create_group(group("g2", &["alice"])).unwrap();
    usecase
        .repository
        .create_payment(payment("p3", "g2", "alice", &["dan"]))
        .unwrap();
    let auth = authorized("alice");
    usecase.delete_group(&GroupID::new("g1"), &auth).unwrap();
    assert_eq!(
        usecase.get_group(&GroupID::new("g1"), &auth).unwrap_err(),
        UseCaseError::NotFound
    );
    assert_eq!(
        usecase.get_payment(&PaymentID::new("p1"), &auth).unwrap_err(),
        UseCaseError::NotFound
    );
    assert_eq!(
        usecase.get_payment(&PaymentID::new("p2"), &auth).unwrap_err(),
        UseCaseError::NotFound
    );
    // the other group's payment is untouched
    assert!(usecase.get_payment(&PaymentID::new("p3"), &auth).is_ok());
}

#[test]
fn group_payment_round_trip() {
    let mut usecase = UseCase::new(MemoryRepository::new());
    usecase.repository.create_group(group("g1", &["alice"])).unwrap();
    let auth = authorized("alice");
    let created = usecase
        .create_payment(
            String::from("dinner"),
            GroupID::new("g1"),
            UserID::new("alice"),
            vec![UserID::new("bob")],
            &auth,
        )
        .unwrap();
    let fetched = usecase.get_payment(&created.id, &auth).unwrap();
    assert_eq!(created, fetched);
}

#[test]
fn payment_authority_scenario() {
    let mut usecase = UseCase::new(MemoryRepository::new());
    usecase.repository.create_group(group("g1", &["alice"])).unwrap();
    usecase
        .repository
        .create_payment(payment("p1", "g1", "alice", &["bob"]))
        .unwrap();
    let bob = authorized("bob");
    assert_eq!(
        usecase.get_payment(&PaymentID::new("p1"), &bob).unwrap_err(),
        UseCaseError::UnAuthorized
    );
    let alice = authorized("alice");
    usecase.delete_group(&GroupID::new("g1"), &alice).unwrap();
    assert_eq!(
        usecase.get_payment(&PaymentID::new("p1"), &alice).unwrap_err(),
        UseCaseError::NotFound
    );
}

#[test]
fn create_payment_unauthorized_1() {
    let mut usecase = UseCase::new(MemoryRepository::new());
    usecase.repository.create_group(group("g1", &["alice"])).unwrap();
    let auth = AuthState::UnAuthorized;
    let r = usecase.create_payment(
        String::from("dinner"),
        GroupID::new("g1"),
        UserID::new("alice"),
        vec![UserID::new("bob")],
        &auth,
    );
    assert!(r.is_err());
}

#[test]
fn create_payment_unauthorized_2() {
    let mut usecase = UseCase::new(MemoryRepository::new());
    usecase.repository.create_group(group("g1", &["alice"])).unwrap();
    let auth = authorized("mallory");
    let r = usecase.create_payment(
        String::from("dinner"),
        GroupID::new("g1"),
        UserID::new("alice"),
        vec![UserID::new("bob")],
        &auth,
    );
    assert!(r.is_err());
}

#[test]
fn create_payment_authorized() {
    let mut usecase = UseCase::new(MemoryRepository::new());
    usecase.repository.create_group(group("g1", &["alice"])).unwrap();
    let auth = authorized("alice");
    let r = usecase.create_payment(
        String::from("dinner"),
        GroupID::new("g1"),
        UserID::new("alice"),
        vec![UserID::new("bob")],
        &auth,
    );
    assert!(r.is_ok());
}

#[test]
fn delete_payment_unauthorized_1() {
    let mut usecase = UseCase::new(MemoryRepository::new());
    usecase.repository.create_group(group("g1", &["alice"])).unwrap();
    usecase
        .repository
        .create_payment(payment("p1", "g1", "alice", &["bob"]))
        .unwrap();
    let auth = AuthState::UnAuthorized;
    assert!(usecase.delete_payment(&PaymentID::new("p1"), &auth).is_err());
}

#[test]
fn delete_payment_unauthorized_2() {
    let mut usecase = UseCase::new(MemoryRepository::new());
    usecase.repository.create_group(group("g1", &["alice"])).unwrap();
    usecase
        .repository
        .create_payment(payment("p1", "g1", "alice", &["bob"]))
        .unwrap();
    let auth = authorized("mallory");
    let r = usecase.delete_payment(&PaymentID::new("p1"), &auth);
    assert_eq!(r.unwrap_err(), UseCaseError::UnAuthorized);
}

#[test]
fn delete_payment_authorized() {
    let mut usecase = UseCase::new(MemoryRepository::new());
    usecase.repository.create_group(group("g1", &["alice"])).unwrap();
    usecase
        .repository
        .create_payment(payment("p1", "g1", "alice", &["bob"]))
        .unwrap();
    let auth = authorized("alice");
    assert!(usecase.delete_payment(&PaymentID::new("p1"), &auth).is_ok());
    // a second delete of the same id reports absence
    assert_eq!(
        usecase.delete_payment(&PaymentID::new("p1"), &auth).unwrap_err(),
        UseCaseError::NotFound
    );
}

#[test]
fn get_payments_by_group_unauthorized() {
    let mut usecase = UseCase::new(MemoryRepository::new());
    usecase.repository.create_group(group("g1", &["alice"])).unwrap();
    let auth = authorized("mallory");
    assert!(usecase.get_payments_by_group(&GroupID::new("g1"), &auth).is_err());
}

#[test]
fn get_payments_by_group_authorized() {
    let mut usecase = UseCase::new(MemoryRepository::new());
    usecase.repository.create_group(group("g1", &["alice"])).unwrap();
    usecase
        .repository
        .create_payment(payment("p1", "g1", "alice", &["bob"]))
        .unwrap();
    let auth = authorized("alice");
    let ps = usecase.get_payments_by_group(&GroupID::new("g1"), &auth).unwrap();
    assert_eq!(ps, vec![payment("p1", "g1", "alice", &["bob"])]);
}

#[test]
fn have_authority_group_unauthorized_1() {
    let mut usecase = UseCase::new(MemoryRepository::new());
    usecase.repository.create_group(group("g1", &["alice"])).unwrap();
    let auth = AuthState::UnAuthorized;
    assert!(!usecase.have_authority_group(&GroupID::new("g1"), &auth));
}

#[test]
fn have_authority_group_unauthorized_2() {
    let mut usecase = UseCase::new(MemoryRepository::new());
    usecase.repository.create_group(group("g1", &["alice"])).unwrap();
    let auth = authorized("mallory");
    assert!(!usecase.have_authority_group(&GroupID::new("g1"), &auth));
}

#[test]
fn have_authority_group_authorized() {
    let mut usecase = UseCase::new(MemoryRepository::new());
    usecase.repository.create_group(group("g1", &["alice"])).unwrap();
    let auth = authorized("alice");
    assert!(usecase.have_authority_group(&GroupID::new("g1"), &auth));
}

#[test]
fn create_user_unauthorized() {
    let mut usecase = UseCase::new(MemoryRepository::new());
    let auth = AuthState::UnAuthorized;
    assert!(usecase.create_user(&auth).is_err());
}

#[test]
fn create_user_authorized() {
    let mut usecase = UseCase::new(MemoryRepository::new());
    let auth = authorized("alice");
    let user = usecase.create_user(&auth).unwrap();
    assert_eq!(user.id, UserID::new("alice"));
}

#[test]
fn delete_user_unauthorized_1() {
    let mut usecase = UseCase::new(MemoryRepository::new());
    usecase.repository.create_user(User { id: UserID::new("alice") }).unwrap();
    let auth = AuthState::UnAuthorized;
    assert!(usecase.delete_user(&UserID::new("alice"), &auth).is_err());
}

#[test]
fn delete_user_unauthorized_2() {
    let mut usecase = UseCase::new(MemoryRepository::new());
    usecase.repository.create_user(User { id: UserID::new("alice") }).unwrap();
    let auth = authorized("mallory");
    assert!(usecase.delete_user(&UserID::new("alice"), &auth).is_err());
}

#[test]
fn delete_user_authorized() {
    let mut usecase = UseCase::new(MemoryRepository::new());
    usecase.repository.create_user(User { id: UserID::new("alice") }).unwrap();
    let auth = authorized("alice");
    assert!(usecase.delete_user(&UserID::new("alice"), &auth).is_ok());
}

#[test]
fn get_user_unauthorized() {
    let mut usecase = UseCase::new(MemoryRepository::new());
    usecase.repository.create_user(User { id: UserID::new("alice") }).unwrap();
    let auth = AuthState::UnAuthorized;
    assert!(usecase.get_user(&UserID::new("alice"), &auth).is_err());
}

#[test]
fn get_user_authorized_1() {
    let mut usecase = UseCase::new(MemoryRepository::new());
    usecase.repository.create_user(User { id: UserID::new("alice") }).unwrap();
    let auth = authorized("bob");
    assert!(usecase.get_user(&UserID::new("alice"), &auth).is_ok());
}

#[test]
fn get_user_authorized_2() {
    let mut usecase = UseCase::new(MemoryRepository::new());
    usecase.repository.create_user(User { id: UserID::new("alice") }).unwrap();
    let auth = authorized("alice");
    assert!(usecase.get_user(&UserID::new("alice"), &auth).is_ok());
}

#[test]
fn get_users_unauthorized() {
    let mut usecase = UseCase::new(MemoryRepository::new());
    usecase.repository.create_user(User { id: UserID::new("alice") }).unwrap();
    let auth = AuthState::UnAuthorized;
    assert!(usecase.get_users(&[UserID::new("alice")], &auth).is_err());
}

#[test]
fn get_users_authorized_1() {
    let mut usecase = UseCase::new(MemoryRepository::new());
    usecase.repository.create_user(User { id: UserID::new("alice") }).unwrap();
    let auth = authorized("bob");
    assert!(usecase.get_users(&[UserID::new("alice")], &auth).is_ok());
}

#[test]
fn get_users_authorized_2() {
    let mut usecase = UseCase::new(MemoryRepository::new());
    usecase.repository.create_user(User { id: UserID::new("alice") }).unwrap();
    let auth = authorized("alice");
    assert!(usecase.get_users(&[UserID::new("alice")], &auth).is_ok());
}

#[test]
fn get_users_keeps_order_and_fails_entirely() {
    let mut usecase = UseCase::new(MemoryRepository::new());
    usecase.repository.create_user(User { id: UserID::new("alice") }).unwrap();
    usecase.repository.create_user(User { id: UserID::new("bob") }).unwrap();
    let auth = authorized("alice");
    let users = usecase
        .get_users(&[UserID::new("bob"), UserID::new("alice")], &auth)
        .unwrap();
    assert_eq!(
        users,
        vec![User { id: UserID::new("bob") }, User { id: UserID::new("alice") }]
    );
    let r = usecase.get_users(&[UserID::new("alice"), UserID::new("nobody")], &auth);
    assert_eq!(r.unwrap_err(), UseCaseError::NotFound);
}

#[test]
fn have_authority_user_unauthorized_1() {
    let mut usecase = UseCase::new(MemoryRepository::new());
    usecase.repository.create_user(User { id: UserID::new("alice") }).unwrap();
    let auth = AuthState::UnAuthorized;
    assert!(!usecase.have_authority_user(&UserID::new("alice"), &auth));
}

#[test]
fn have_authority_user_unauthorized_2() {
    let mut usecase = UseCase::new(MemoryRepository::new());
    usecase.repository.create_user(User { id: UserID::new("alice") }).unwrap();
    let auth = authorized("mallory");
    assert!(!usecase.have_authority_user(&UserID::new("alice"), &auth));
}

#[test]
fn have_authority_user_authorized() {
    let mut usecase = UseCase::new(MemoryRepository::new());
    usecase.repository.create_user(User { id: UserID::new("alice") }).unwrap();
    let auth = authorized("alice");
    assert!(usecase.have_authority_user(&UserID::new("alice"), &auth));
}

#[test]
fn have_authority_payment_unauthorized_1() {
    let mut usecase = UseCase::new(MemoryRepository::new());
    usecase.repository.create_group(group("g1", &["alice"])).unwrap();
    usecase
        .repository
        .create_payment(payment("p1", "g1", "alice", &["bob"]))
        .unwrap();
    let auth = AuthState::UnAuthorized;
    assert!(!usecase.have_authority_payment(&PaymentID::new("p1"), &auth));
}

#[test]
fn have_authority_payment_unauthorized_2() {
    let mut usecase = UseCase::new(MemoryRepository::new());
    usecase.repository.create_group(group("g1", &["alice"])).unwrap();
    usecase
        .repository
        .create_payment(payment("p1", "g1", "alice", &["bob"]))
        .unwrap();
    let auth = authorized("mallory");
    assert!(!usecase.have_authority_payment(&PaymentID::new("p1"), &auth));
}

#[test]
fn have_authority_payment_authorized() {
    let mut usecase = UseCase::new(MemoryRepository::new());
    usecase.repository.create_group(group("g1", &["alice"])).unwrap();
    usecase
        .repository
        .create_payment(payment("p1", "g1", "alice", &["bob"]))
        .unwrap();
    let auth = authorized("alice");
    assert!(usecase.have_authority_payment(&PaymentID::new("p1"), &auth));
}

#[test]
fn get_groups_by_user_unauthorized() {
    let usecase = UseCase::new(MemoryRepository::new());
    let auth = AuthState::UnAuthorized;
    assert!(usecase.get_groups_by_user(&auth).is_err());
}

#[test]
fn get_groups_by_user_authorized() {
    let mut usecase = UseCase::new(MemoryRepository::new());
    usecase.repository.create_group(group("g1", &["alice"])).unwrap();
    usecase.repository.create_group(group("g2", &["bob"])).unwrap();
    let auth = authorized("alice");
    let gs = usecase.get_groups_by_user(&auth).unwrap();
    assert_eq!(gs, vec![group("g1", &["alice"])]);
}

#[test]
fn controllers_delegate() {
    let mut usecase = UseCase::new(MemoryRepository::new());
    let alice = authorized("alice");
    let g = GroupMutation.create_group(&mut usecase, String::from("trip"), &alice).unwrap();
    let got = GroupQuery.get_group(&usecase, &g.id, &alice).unwrap();
    assert_eq!(got, Some(g.clone()));
    let p = PaymentMutation
        .create_payment(
            &mut usecase,
            String::from("dinner"),
            g.id.clone(),
            UserID::new("alice"),
            vec![UserID::new("bob")],
            &alice,
        )
        .unwrap();
    assert_eq!(
        PaymentQuery.get_payment(&usecase, &p.id, &alice).unwrap(),
        Some(p.clone())
    );
    assert!(PaymentMutation.delete_payment(&mut usecase, &p.id, &alice).is_ok());
    assert!(GroupMutation.delete_group(&mut usecase, &g.id, &alice).is_ok());
}

#[test]
fn fresh_ids_have_fixed_length() {
    let mut usecase = UseCase::new(MemoryRepository::new());
    let auth = authorized("alice");
    let g = usecase.create_group(String::from("trip"), &auth).unwrap();
    assert_eq!(g.id.to_string().len(), 21);
}

#[test]
fn get_users_empty_list() {
    let usecase = UseCase::new(MemoryRepository::new());
    let auth = authorized("alice");
    let users = usecase.get_users(&[], &auth).unwrap();
    assert_eq!(users, vec![]);
}

#[test]
fn get_groups_by_user_lists_all_memberships() {
    let mut usecase = UseCase::new(MemoryRepository::new());
    usecase.repository.create_group(group("g1", &["alice"])).unwrap();
    usecase.repository.create_group(group("g2", &["bob", "alice"])).unwrap();
    usecase.repository.create_group(group("g3", &["bob"])).unwrap();
    let auth = authorized("alice");
    let gs = usecase.get_groups_by_user(&auth).unwrap();
    assert_eq!(gs, vec![group("g1", &["alice"]), group("g2", &["bob", "alice"])]);
}

#[test]
fn get_payments_by_group_lists_all_payments() {
    let mut usecase = UseCase::new(MemoryRepository::new());
    usecase.repository.create_group(group("g1", &["alice"])).unwrap();
    usecase
        .repository
        .create_payment(payment("p1", "g1", "alice", &["bob"]))
        .unwrap();
    usecase
        .repository
        .create_payment(payment("p2", "g2", "alice", &["bob"]))
        .unwrap();
    usecase
        .repository
        .create_payment(payment("p3", "g1", "alice", &["carol"]))
        .unwrap();
    let auth = authorized("alice");
    let ps = usecase.get_payments_by_group(&GroupID::new("g1"), &auth).unwrap();
    assert_eq!(
        ps,
        vec![payment("p1", "g1", "alice", &["bob"]), payment("p3", "g1", "alice", &["carol"])]
    );
}
