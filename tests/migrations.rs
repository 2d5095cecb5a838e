use openmusicgang::migrations::{get_migrations_list, migrations};

#[test]
fn migration_lists() {
    let all = migrations();
    assert_eq!(all.len(), 2);
    assert_eq!(all[0].name, "000-create_users_table");
    assert_eq!(all[1].name, "001-create_auths_table");
    assert!(all[0].query.starts_with("CREATE TABLE users("));

    let applied = get_migrations_list();
    assert_eq!(applied.len(), 1);
    assert_eq!(applied[0].name, "000-create_users_table");
    assert_eq!(applied[0].query, all[0].query);
}
