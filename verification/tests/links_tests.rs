use user_seeder::links::pair_all;
use user_seeder::{create_user_notifications, create_user_roles};

#[test]
fn roles_are_paired_user_by_user() {
    let made = create_user_roles(vec![1, 2], vec![10, 20, 30]);
    assert_eq!(made.sql, "INSERT INTO users_roles (user_id, role_id) VALUES ($1,$2)");
    assert_eq!(made.rows, vec![(1, 10), (1, 20), (1, 30), (2, 10), (2, 20), (2, 30)]);
}

#[test]
fn notifications_are_paired_user_by_user() {
    let made = create_user_notifications(vec![5, 6, 7], vec![-1, 4]);
    assert_eq!(
        made.sql,
        "INSERT INTO users_notifications (user_id, notification_id) VALUES ($1,$2)"
    );
    assert_eq!(made.rows, vec![(5, -1), (5, 4), (6, -1), (6, 4), (7, -1), (7, 4)]);
}

#[test]
fn number_of_links_is_the_product() {
    let users: Vec<i32> = (0..7).collect();
    let roles: Vec<i32> = (100..105).collect();
    let made = create_user_roles(users.clone(), roles.clone());
    assert_eq!(made.rows.len(), 7 * 5);
    let made = create_user_notifications(users, roles);
    assert_eq!(made.rows.len(), 35);
    assert_eq!(made.rows[3 * 5 + 2], (3, 102));
}

#[test]
fn no_roles_no_links() {
    let made = create_user_roles(vec![1, 2, 3], vec![]);
    assert!(made.rows.is_empty());
    let made = create_user_notifications(vec![1, 2, 3], vec![]);
    assert!(made.rows.is_empty());
}

#[test]
fn no_users_no_links() {
    let made = create_user_roles(vec![], vec![1, 2, 3]);
    assert!(made.rows.is_empty());
    let made = create_user_notifications(vec![], vec![]);
    assert!(made.rows.is_empty());
}

#[test]
fn repeated_ids_are_paired_each_time() {
    let made = create_user_roles(vec![1, 1], vec![2, 2]);
    assert_eq!(made.rows, vec![(1, 2), (1, 2), (1, 2), (1, 2)]);
}

#[test]
fn extreme_ids_are_kept() {
    let rows = pair_all(&vec![i32::MIN, i32::MAX], &vec![0]);
    assert_eq!(rows, vec![(i32::MIN, 0), (i32::MAX, 0)]);
}
