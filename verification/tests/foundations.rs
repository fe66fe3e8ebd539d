use ai_company::agents::Agent;
use ai_company::agents::Department;
use ai_company::chance::happens;
use ai_company::chance::sample;
use ai_company::communication::DeliveryError;
use ai_company::communication::Message;
use ai_company::communication::MessageBus;
use ai_company::communication::MessagePriority;
use ai_company::table::Table;
use ai_company::text::decimal_string;
use ai_company::text::reads;
use ai_company::text::unsigned_string;

fn message(id: u128, from: u128, to: u128) -> Message {
    let mut m = Message::note_to_self_with(to, "status_update", "hello", id, 0);
    m.from_agent = from;
    m
}

#[test]
fn department_names() {
    let names: Vec<&str> = [
        Department::Engineering,
        Department::Sales,
        Department::DevOps,
        Department::InfoSec,
        Department::Networking,
        Department::Ops,
        Department::Marketing,
        Department::Finance,
        Department::HR,
        Department::Legal,
    ]
    .iter()
    .map(|d| d.as_str())
    .collect();
    assert_eq!(
        names,
        vec![
            "Engineering",
            "Sales",
            "DevOps",
            "InfoSec",
            "Networking",
            "Ops",
            "Marketing",
            "Finance",
            "HR",
            "Legal"
        ]
    );
}

#[test]
fn new_agents_get_different_identifiers() {
    let first = Agent::new("a".to_string(), Department::Sales, None);
    let second = Agent::new("b".to_string(), Department::Sales, Some(first.id));
    assert_ne!(first.id, 0);
    assert_ne!(second.id, 0);
    assert_ne!(first.id, second.id);
    assert_eq!(second.manager_id, Some(first.id));
    assert_eq!(first.department, Department::Sales);
    // Version 4, RFC 4122 variant.
    assert_eq!((first.id >> 76) & 0xf, 4);
    assert_eq!((first.id >> 62) & 0x3, 2);
    let copy = second.clone();
    assert_eq!(copy.id, second.id);
    assert_eq!(copy.name, "b");
    let known = Agent::with_id(9, "c".to_string(), Department::HR, None);
    assert_eq!(known.id, 9);
    assert_eq!(known.name, "c");
}

#[test]
fn table_binds_first_come_first_kept() {
    let mut table: Table<u128, &str> = Table::new();
    assert!(table.is_empty());
    assert_eq!(table.get(&1), None);
    table.insert(1, "one");
    table.insert(2, "two");
    table.insert(1, "uno");
    assert_eq!(table.len(), 2);
    assert!(!table.is_empty());
    assert_eq!(table.find(&1), Some(0));
    assert_eq!(table.find(&2), Some(1));
    assert_eq!(table.find(&3), None);
    assert_eq!(table.get(&1), Some(&"uno"));
    assert_eq!(table.get(&2), Some(&"two"));
    assert!(table.contains_key(&2));
    assert!(!table.contains_key(&3));

    let mut names: Table<String, u32> = Table::new();
    names.insert("b".to_string(), 1);
    names.insert("a".to_string(), 2);
    names.insert("b".to_string(), 3);
    assert_eq!(names.len(), 2);
    assert_eq!(names.entries[0].key, "b");
    assert_eq!(names.get(&"b".to_string()), Some(&3));
    assert_eq!(names.get(&"c".to_string()), None);
}

#[test]
fn decimal_text() {
    assert_eq!(unsigned_string(0), "0");
    assert_eq!(unsigned_string(9), "9");
    assert_eq!(unsigned_string(10), "10");
    assert_eq!(unsigned_string(1_234_567_890), "1234567890");
    assert_eq!(unsigned_string(u64::MAX), "18446744073709551615");
    assert_eq!(decimal_string(0), "0");
    assert_eq!(decimal_string(-1), "-1");
    assert_eq!(decimal_string(1_700_000_000), "1700000000");
    assert_eq!(decimal_string(i64::MAX), "9223372036854775807");
    assert_eq!(decimal_string(i64::MIN), "-9223372036854775808");
    assert!(reads(&"abc".to_string(), "abc"));
    assert!(!reads(&"abc".to_string(), "abd"));
    assert!(!reads(&"abc".to_string(), "ab"));
}

#[test]
fn draws_are_spread_by_remainder() {
    assert_eq!(sample(0, 10), 0);
    assert_eq!(sample(9, 10), 9);
    assert_eq!(sample(10, 10), 0);
    assert_eq!(sample(u64::MAX, 10_000), 1_615);
    assert_eq!(sample(123, 1), 0);
    assert!(happens(2_999, 3_000));
    assert!(!happens(3_000, 3_000));
    assert!(!happens(0, 0));
    assert!(happens(9_999, 10_000));
    assert!(happens(10_000, 1));
}

#[test]
fn message_parameters_have_defaults() {
    let mut m = message(1, 2, 3);
    assert_eq!(m.parameter("environment"), None);
    assert_eq!(m.parameter_or("environment", "staging"), "staging");
    m.metadata.insert("environment".to_string(), "production".to_string());
    assert_eq!(m.parameter("environment"), Some(&"production".to_string()));
    assert_eq!(m.parameter_or("environment", "staging"), "production");
    assert_eq!(m.priority, MessagePriority::Normal);
    let fresh = Message::note_to_self(8, "health_check", "Daily health check");
    assert_eq!(fresh.from_agent, 8);
    assert_eq!(fresh.to_agent, 8);
    assert_eq!(fresh.message_type, "health_check");
    assert_eq!(fresh.content, "Daily health check");
    assert_ne!(fresh.id, 0);
    assert!(fresh.timestamp > 1_600_000_000);
    assert!(fresh.metadata.is_empty());
}

#[test]
fn bus_refuses_unknown_recipients() {
    let mut bus = MessageBus::new().unwrap();
    bus.register(3);
    bus.send_message(message(1, 2, 3)).unwrap();
    let result = bus.send_message(message(2, 2, 4));
    assert!(matches!(result, Err(DeliveryError::UnknownRecipient(4))));
    assert_eq!(bus.pending(), 1);
    assert_eq!(bus.queue[0].id, 1);
    assert_eq!(bus.directory, vec![3]);
    assert!(bus.is_registered(3));
    assert!(!bus.is_registered(4));
    bus.register(3);
    assert_eq!(bus.directory, vec![3]);
    bus.register(4);
    assert_eq!(bus.directory, vec![3, 4]);
    assert!(bus.send_message(message(3, 2, 4)).is_ok());
}

#[test]
fn bus_is_first_in_first_out_for_each_recipient() {
    let mut bus = MessageBus::new().unwrap();
    bus.register(10);
    bus.register(20);
    bus.send_message(message(1, 1, 10)).unwrap();
    bus.send_message(message(2, 1, 20)).unwrap();
    bus.send_message(message(3, 1, 10)).unwrap();
    bus.send_message(message(4, 2, 10)).unwrap();
    bus.send_message(message(5, 1, 20)).unwrap();
    assert!(bus.receive(30).is_none());
    assert_eq!(bus.receive(20).unwrap().id, 2);
    assert_eq!(bus.receive(10).unwrap().id, 1);
    assert_eq!(bus.receive(10).unwrap().id, 3);
    assert_eq!(bus.receive(10).unwrap().id, 4);
    assert!(bus.receive(10).is_none());
    assert_eq!(bus.pending(), 1);
    assert_eq!(bus.receive(20).unwrap().id, 5);
    assert!(bus.receive(20).is_none());
    assert_eq!(bus.pending(), 0);
}
