use user_service::service::{create_user, delete_user, get_users};
use user_service::table::UserTable;
use user_service::user::User;

fn ada() -> User {
    User {
        id: None,
        name: String::from("Ada"),
        email: String::from("ada@example.com"),
    }
}

#[test]
fn insert_then_list_contains_exactly_one_new_user() {
    let mut table = UserTable::new();
    let created = table.insert(String::from("Ada"), String::from("ada@example.com"));
    assert_eq!(created.id, Some(1));
    assert_eq!(created.name, "Ada");
    assert_eq!(created.email, "ada@example.com");
    let users = table.list();
    assert_eq!(users.len(), 1);
    let matching = users
        .iter()
        .filter(|u| u.id == created.id && u.name == "Ada" && u.email == "ada@example.com")
        .count();
    assert_eq!(matching, 1);
}

#[test]
fn delete_removes_inserted_user_from_listing() {
    let mut table = UserTable::new();
    let first = table.insert(String::from("Ada"), String::from("ada@example.com"));
    let second = table.insert(String::from("Grace"), String::from("grace@example.com"));
    table.delete(first.id.unwrap());
    let users = table.list();
    assert_eq!(users.len(), 1);
    assert!(users.iter().all(|u| u.id != first.id));
    assert!(users.iter().any(|u| u.id == second.id));
}

#[test]
fn delete_of_never_inserted_id_is_a_noop() {
    let mut table = UserTable::new();
    table.insert(String::from("Ada"), String::from("ada@example.com"));
    table.delete(999);
    let users = table.list();
    assert_eq!(users.len(), 1);
    assert_eq!(users[0].id, Some(1));
}

#[test]
fn inserts_receive_distinct_fresh_ids() {
    let mut table = UserTable::new();
    let a = table.insert(String::from("Ada"), String::from("ada@example.com"));
    let b = table.insert(String::from("Grace"), String::from("grace@example.com"));
    let c = table.insert(String::from("Alan"), String::from("alan@example.com"));
    let ids = [a.id.unwrap(), b.id.unwrap(), c.id.unwrap()];
    assert_eq!(ids, [1, 2, 3]);
    assert!(ids[0] != ids[1] && ids[1] != ids[2] && ids[0] != ids[2]);
}

#[test]
fn id_of_deleted_row_is_not_reused() {
    let mut table = UserTable::new();
    let a = table.insert(String::from("Ada"), String::from("ada@example.com"));
    table.delete(a.id.unwrap());
    let b = table.insert(String::from("Grace"), String::from("grace@example.com"));
    assert_eq!(b.id, Some(2));
}

#[test]
fn handlers_mirror_table_operations() {
    let mut table = UserTable::new();
    let created = create_user(&mut table, ada());
    assert_eq!(created.status, 200);
    let listing = get_users(&table);
    assert_eq!(listing.status, 200);
    assert_eq!(
        listing.body,
        "[{\"id\":1,\"name\":\"Ada\",\"email\":\"ada@example.com\"}]"
    );
    let deleted = delete_user(&mut table, 1);
    assert_eq!(deleted.status, 204);
    assert_eq!(get_users(&table).body, "[]");
}
