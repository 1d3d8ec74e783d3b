use kube_ssm::aws::{get_ec2_instance_id, get_ec2_node_ips, Instance, Reservation};
use kube_ssm::error::{Error, ErrorKind};
use kube_ssm::inventory::InstanceInventory;

fn instance(name: Option<&str>, id: Option<&str>) -> Instance {
    Instance { instance_id: id.map(str::to_string), private_dns_name: name.map(str::to_string) }
}

fn single_entry() -> InstanceInventory {
    let mut inventory = InstanceInventory::new();
    inventory.insert("ip-10-0-1-5.ec2.internal".to_string(), "i-0abc123".to_string());
    inventory
}

#[test]
fn a_listed_node_resolves_to_its_instance() {
    let inventory = single_entry();
    assert_eq!(
        get_ec2_instance_id("ip-10-0-1-5.ec2.internal".to_string(), &inventory),
        Ok("i-0abc123".to_string())
    );
}

#[test]
fn an_unlisted_node_fails_naming_it() {
    let inventory = single_entry();
    let error = get_ec2_instance_id("ip-10-0-9-9.ec2.internal".to_string(), &inventory).unwrap_err();
    assert_eq!(error, Error::InstanceNotFound { node: "ip-10-0-9-9.ec2.internal".to_string() });
    assert_eq!(error.kind(), ErrorKind::ResolutionMiss);
    assert_eq!(
        error.message(),
        "No instance ID found for private dns: ip-10-0-9-9.ec2.internal"
    );
}

#[test]
fn nothing_resolves_in_an_empty_inventory() {
    let inventory = InstanceInventory::new();
    assert_eq!(
        get_ec2_instance_id("".to_string(), &inventory),
        Err(Error::InstanceNotFound { node: String::new() })
    );
}

#[test]
fn lookup_is_exact() {
    let inventory = single_entry();
    assert!(get_ec2_instance_id("IP-10-0-1-5.ec2.internal".to_string(), &inventory).is_err());
    assert!(get_ec2_instance_id("ip-10-0-1-5.ec2.internal ".to_string(), &inventory).is_err());
    assert!(get_ec2_instance_id("ip-10-0-1-5".to_string(), &inventory).is_err());
}

#[test]
fn insert_and_get() {
    let mut inventory = InstanceInventory::new();
    assert_eq!(inventory.get(&"a".to_string()), None);
    assert!(!inventory.contains_key(&"a".to_string()));
    inventory.insert("a".to_string(), "i-1".to_string());
    inventory.insert("b".to_string(), "i-2".to_string());
    assert_eq!(inventory.get(&"a".to_string()), Some(&"i-1".to_string()));
    assert_eq!(inventory.get(&"b".to_string()), Some(&"i-2".to_string()));
    assert_eq!(inventory.get(&"c".to_string()), None);
    assert!(inventory.contains_key(&"b".to_string()));
}

#[test]
fn the_inventory_counts_its_names() {
    let mut inventory = InstanceInventory::new();
    assert!(inventory.is_empty());
    assert_eq!(inventory.len(), 0);
    inventory.insert("a".to_string(), "i-1".to_string());
    inventory.insert("b".to_string(), "i-2".to_string());
    assert_eq!(inventory.len(), 2);
    inventory.insert("a".to_string(), "i-3".to_string());
    assert_eq!(inventory.len(), 2);
    assert!(!inventory.is_empty());
}

#[test]
fn insert_under_a_listed_name_replaces() {
    let mut inventory = InstanceInventory::new();
    inventory.insert("a".to_string(), "i-1".to_string());
    inventory.insert("b".to_string(), "i-2".to_string());
    inventory.insert("a".to_string(), "i-3".to_string());
    assert_eq!(inventory.get(&"a".to_string()), Some(&"i-3".to_string()));
    assert_eq!(inventory.get(&"b".to_string()), Some(&"i-2".to_string()));
}

#[test]
fn the_inventory_lists_the_instances_of_all_reservations() {
    let reservations = vec![
        Reservation {
            instances: vec![
                instance(Some("ip-10-0-1-5.ec2.internal"), Some("i-0abc123")),
                instance(Some("ip-10-0-1-6.ec2.internal"), Some("i-0abc124")),
            ],
        },
        Reservation { instances: Vec::new() },
        Reservation { instances: vec![instance(Some("ip-10-0-2-7.ec2.internal"), Some("i-0def456"))] },
    ];
    let inventory = get_ec2_node_ips(&reservations);
    assert_eq!(
        inventory.get(&"ip-10-0-1-5.ec2.internal".to_string()),
        Some(&"i-0abc123".to_string())
    );
    assert_eq!(
        inventory.get(&"ip-10-0-1-6.ec2.internal".to_string()),
        Some(&"i-0abc124".to_string())
    );
    assert_eq!(
        inventory.get(&"ip-10-0-2-7.ec2.internal".to_string()),
        Some(&"i-0def456".to_string())
    );
    assert_eq!(inventory.get(&"ip-10-0-3-8.ec2.internal".to_string()), None);
}

#[test]
fn instances_that_lack_a_field_are_left_out() {
    let reservations = vec![Reservation {
        instances: vec![
            instance(None, Some("i-noname")),
            instance(Some("ip-10-0-1-5.ec2.internal"), Some("i-0abc123")),
            instance(Some("ip-10-0-1-6.ec2.internal"), None),
            instance(None, None),
            instance(Some("ip-10-0-1-7.ec2.internal"), Some("i-0abc125")),
        ],
    }];
    let inventory = get_ec2_node_ips(&reservations);
    assert_eq!(
        inventory.get(&"ip-10-0-1-5.ec2.internal".to_string()),
        Some(&"i-0abc123".to_string())
    );
    assert_eq!(
        inventory.get(&"ip-10-0-1-7.ec2.internal".to_string()),
        Some(&"i-0abc125".to_string())
    );
    assert!(!inventory.contains_key(&"ip-10-0-1-6.ec2.internal".to_string()));
    assert!(!inventory.contains_key(&"".to_string()));
    assert_eq!(inventory.len(), 2);
}

#[test]
fn a_later_instance_of_the_same_name_takes_the_place() {
    let reservations = vec![
        Reservation { instances: vec![instance(Some("shared"), Some("i-first"))] },
        Reservation {
            instances: vec![
                instance(Some("other"), Some("i-other")),
                instance(Some("shared"), Some("i-second")),
                instance(Some("shared"), None),
            ],
        },
    ];
    let inventory = get_ec2_node_ips(&reservations);
    assert_eq!(inventory.get(&"shared".to_string()), Some(&"i-second".to_string()));
    assert_eq!(inventory.get(&"other".to_string()), Some(&"i-other".to_string()));
}

#[test]
fn no_reservations_give_an_empty_inventory() {
    let inventory = get_ec2_node_ips(&Vec::new());
    assert!(inventory.is_empty());
    assert!(!inventory.contains_key(&"anything".to_string()));
}

#[test]
fn an_empty_name_is_a_name() {
    let reservations = vec![Reservation { instances: vec![instance(Some(""), Some("i-empty"))] }];
    let inventory = get_ec2_node_ips(&reservations);
    assert_eq!(get_ec2_instance_id(String::new(), &inventory), Ok("i-empty".to_string()));
}
