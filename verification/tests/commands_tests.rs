use clock_roles::commands::{
    complete_add, dispatch, list_reply, parse_selector, parse_timezone, plan_add, purge,
    purge_reply, Command, Effect, ParseError, RoleRequest,
};
use clock_roles::registry::{RegistryError, RoleRegistry, Selector};
use clock_roles::render::Instant;
use clock_roles::Role;

fn at(millis: i64) -> Instant {
    Instant::from_millis(millis).unwrap()
}

fn role(id: i64, guild_id: i64, timezone: &str) -> Role {
    Role { id, guild_id, timezone: timezone.to_string() }
}

fn sample() -> RoleRegistry {
    let mut registry = RoleRegistry::new();
    registry.add(role(10, 1, "UTC")).unwrap();
    registry.add(role(11, 1, "Asia/Tokyo")).unwrap();
    registry.add(role(20, 2, "UTC")).unwrap();
    registry
}

#[test]
fn parse_timezone_accepts_database_names() {
    assert_eq!(parse_timezone("America/New_York"), Ok("America/New_York".to_string()));
    assert_eq!(parse_timezone("UTC"), Ok("UTC".to_string()));
    assert_eq!(parse_timezone("Asia/Kolkata"), Ok("Asia/Kolkata".to_string()));
}

#[test]
fn parse_timezone_rejects_other_text() {
    let rejected = parse_timezone("Atlantis/Capital");
    assert_eq!(rejected, Err(ParseError { text: "Atlantis/Capital".to_string() }));
    assert!(parse_timezone("").is_err());
    assert!(parse_timezone(" UTC").is_err());
    assert!(parse_timezone("america/new_york").is_err());
}

#[test]
fn parse_error_message_quotes_the_text() {
    let error = ParseError { text: "Nowhere".to_string() };
    assert_eq!(error.message(), "'Nowhere' is not a valid timezone");
}

#[test]
fn parse_selector_knows_all() {
    assert_eq!(parse_selector("all"), Ok(Selector::All));
}

#[test]
fn parse_selector_resolves_a_zone() {
    assert_eq!(parse_selector("Europe/Paris"), Ok(Selector::Specific("Europe/Paris".to_string())));
}

#[test]
fn parse_selector_rejects_other_text() {
    assert_eq!(parse_selector("ALL"), Err(ParseError { text: "ALL".to_string() }));
    assert_eq!(parse_selector("everything"), Err(ParseError { text: "everything".to_string() }));
}

#[test]
fn plan_add_renders_the_first_label() {
    let plan = plan_add("Asia/Tokyo", at(1_600_000_000_000));
    assert_eq!(
        plan,
        Ok(RoleRequest {
            timezone: "Asia/Tokyo".to_string(),
            label: "Asia/Tokyo 21:26".to_string()
        })
    );
}

#[test]
fn plan_add_rejects_bad_text() {
    assert_eq!(
        plan_add("Tokyo", at(0)),
        Err(ParseError { text: "Tokyo".to_string() })
    );
}

#[test]
fn complete_add_records_the_entry() {
    let mut registry = RoleRegistry::new();
    let reply = complete_add(&mut registry, 1, "Asia/Tokyo".to_string(), 77);
    assert_eq!(reply, Ok("Added timezone Asia/Tokyo".to_string()));
    assert_eq!(registry.list_all(), vec![role(77, 1, "Asia/Tokyo")]);
}

#[test]
fn complete_add_reports_a_storage_error() {
    let mut registry = sample();
    let reply = complete_add(&mut registry, 2, "Asia/Tokyo".to_string(), 10);
    assert_eq!(reply, Err(RegistryError::StorageError));
    assert_eq!(registry.list_all(), sample().list_all());
}

#[test]
fn add_new_york_to_community_one() {
    let now = at(1_600_000_000_000);
    let mut registry = RoleRegistry::new();
    let request = plan_add("America/New_York", now).unwrap();
    assert!(request.label.ends_with("08:26"));
    assert_eq!(request.label, "America/New_York 08:26");
    let reply = complete_add(&mut registry, 1, request.timezone, 4242).unwrap();
    assert_eq!(reply, "Added timezone America/New_York");
    assert_eq!(registry.list(1), vec!["America/New_York".to_string()]);
}

#[test]
fn rejected_add_changes_nothing() {
    let mut registry = sample();
    let command = Command::Add { timezone: "Neverland".to_string() };
    let effect = dispatch(&mut registry, 1, &command, at(0));
    assert_eq!(effect, Effect::Reply("'Neverland' is not a valid timezone".to_string()));
    assert_eq!(registry.list_all(), sample().list_all());
}

#[test]
fn list_reply_has_one_zone_per_line() {
    let registry = sample();
    assert_eq!(list_reply(&registry, 1), "UTC\nAsia/Tokyo");
    assert_eq!(list_reply(&registry, 2), "UTC");
    assert_eq!(list_reply(&registry, 3), "");
}

#[test]
fn purge_all_returns_every_role_of_the_community() {
    let mut registry = sample();
    let before = registry.list(1).len();
    let removed = purge(&mut registry, 1, "all").unwrap();
    assert_eq!(removed, vec![10, 11]);
    assert_eq!(removed.len(), before);
    assert!(registry.list(1).is_empty());
    assert_eq!(registry.list(2), vec!["UTC".to_string()]);
}

#[test]
fn purge_zone_leaves_the_other_zones() {
    let mut registry = sample();
    let removed = purge(&mut registry, 1, "UTC").unwrap();
    assert_eq!(removed, vec![10]);
    assert_eq!(registry.list(1), vec!["Asia/Tokyo".to_string()]);
    assert_eq!(registry.list(2), vec!["UTC".to_string()]);
}

#[test]
fn purge_with_bad_text_changes_nothing() {
    let mut registry = sample();
    let removed = purge(&mut registry, 1, "Utc");
    assert_eq!(removed, Err(ParseError { text: "Utc".to_string() }));
    assert_eq!(registry.list_all(), sample().list_all());
}

#[test]
fn purge_reply_counts_the_roles() {
    assert_eq!(purge_reply(0), "Purged 0 roles");
    assert_eq!(purge_reply(1), "Purged 1 roles");
    assert_eq!(purge_reply(12), "Purged 12 roles");
}

#[test]
fn dispatch_add_asks_for_a_role() {
    let mut registry = sample();
    let command = Command::Add { timezone: "Europe/Paris".to_string() };
    let effect = dispatch(&mut registry, 1, &command, at(1_600_000_000_000));
    assert_eq!(
        effect,
        Effect::CreateRole(RoleRequest {
            timezone: "Europe/Paris".to_string(),
            label: "Europe/Paris 14:26".to_string()
        })
    );
    assert_eq!(registry.list_all(), sample().list_all());
}

#[test]
fn dispatch_list_answers_with_the_zones() {
    let mut registry = sample();
    let effect = dispatch(&mut registry, 1, &Command::List, at(0));
    assert_eq!(effect, Effect::Reply("UTC\nAsia/Tokyo".to_string()));
    assert_eq!(registry.list_all(), sample().list_all());
}

#[test]
fn dispatch_purge_hands_out_the_roles_to_delete() {
    let mut registry = sample();
    let command = Command::Purge { selector: "all".to_string() };
    let effect = dispatch(&mut registry, 1, &command, at(0));
    assert_eq!(
        effect,
        Effect::DeleteRoles { role_ids: vec![10, 11], reply: "Purged 2 roles".to_string() }
    );
    assert_eq!(registry.list_all(), vec![role(20, 2, "UTC")]);
}

#[test]
fn dispatch_purge_with_bad_text_reports_it() {
    let mut registry = sample();
    let command = Command::Purge { selector: "some".to_string() };
    let effect = dispatch(&mut registry, 1, &command, at(0));
    assert_eq!(effect, Effect::Reply("'some' is not a valid timezone".to_string()));
    assert_eq!(registry.len(), 3);
}
