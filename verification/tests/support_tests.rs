use obsengine::ansible::AnsibleManager;
use obsengine::extensions::{Extension, ExtensionContributions, ExtensionManifest};
use obsengine::kubernetes::{format_age, get_node_status};
use obsengine::snapshot::{CpuMetrics, DockerMetrics, K8sMetrics, MemoryMetrics, NetworkMetrics};

#[test]
fn ansible_manager_records_its_configuration() {
    let mut manager = AnsibleManager::new();
    assert!(manager.inventory_path().is_none());
    assert!(manager.vault_password().is_none());
    assert!(manager.config_pairs().is_empty());
    manager.set_inventory("/etc/ansible/hosts");
    manager.set_vault_password("/run/secrets/vault-pass");
    assert_eq!(manager.inventory_path().unwrap(), "/etc/ansible/hosts");
    assert_eq!(manager.vault_password().unwrap(), "/run/secrets/vault-pass");
}

#[test]
fn node_status_requires_a_true_ready_condition() {
    let ready = vec![
        ("DiskPressure".to_string(), "False".to_string()),
        ("Ready".to_string(), "True".to_string()),
    ];
    assert_eq!(get_node_status(&ready), "Ready");

    let not_ready = vec![
        ("Ready".to_string(), "False".to_string()),
        ("DiskPressure".to_string(), "True".to_string()),
    ];
    assert_eq!(get_node_status(&not_ready), "NotReady");

    let empty: Vec<(String, String)> = vec![];
    assert_eq!(get_node_status(&empty), "NotReady");
}

#[test]
fn extension_record_follows_its_manifest() {
    let manifest = ExtensionManifest {
        id: "tooling.sample".to_string(),
        name: "Sample".to_string(),
        version: "1.2.0".to_string(),
        description: "A sample extension".to_string(),
        author: "Dev".to_string(),
        main: "index.js".to_string(),
        icon: Some("icon.png".to_string()),
        categories: vec!["productivity".to_string()],
        keywords: vec!["sample".to_string(), "demo".to_string()],
        contributes: ExtensionContributions {
            commands: vec![],
            views: vec![],
            menus: vec![],
            themes: vec![],
            languages: vec![],
        },
        dependencies: vec![
            ("tooling.base".to_string(), "^2.0".to_string()),
            ("tooling.icons".to_string(), "^1.1".to_string()),
        ],
        permissions: vec!["fs-read".to_string()],
    };
    let ext = Extension::from_manifest(&manifest, Some("/ext/tooling.sample".to_string()));
    assert_eq!(ext.id, "tooling.sample");
    assert_eq!(ext.name, "Sample");
    assert_eq!(ext.version, "1.2.0");
    assert_eq!(ext.description, "A sample extension");
    assert_eq!(ext.author, "Dev");
    assert_eq!(ext.repository, "");
    assert_eq!(ext.icon.as_deref(), Some("icon.png"));
    assert_eq!(ext.categories, vec!["productivity".to_string()]);
    assert_eq!(ext.keywords, vec!["sample".to_string(), "demo".to_string()]);
    assert!(ext.enabled);
    assert!(ext.installed);
    assert_eq!(ext.path.as_deref(), Some("/ext/tooling.sample"));
    assert_eq!(ext.dependencies, vec!["tooling.base".to_string(), "tooling.icons".to_string()]);
    assert_eq!(ext.permissions, vec!["fs-read".to_string()]);
}

#[test]
fn ages_use_the_largest_whole_unit() {
    assert_eq!(format_age(0), "0s");
    assert_eq!(format_age(59), "59s");
    assert_eq!(format_age(60), "1m");
    assert_eq!(format_age(3599), "59m");
    assert_eq!(format_age(3600), "1h");
    assert_eq!(format_age(86399), "23h");
    assert_eq!(format_age(86400), "1d");
    assert_eq!(format_age(90061), "1d");
    assert_eq!(format_age(1728000), "20d");
}

#[test]
fn unavailable_readings_are_marked_empty() {
    let cpu = CpuMetrics::unavailable();
    assert_eq!(cpu.usage_percent, 0);
    assert_eq!(cpu.cores, 0);
    assert_eq!(cpu.load_average, [0, 0, 0]);
    let memory = MemoryMetrics::unavailable();
    assert_eq!(memory.total_mb, 0);
    assert_eq!(memory.usage_percent, 0);
    let network = NetworkMetrics::unavailable();
    assert!(network.interfaces.is_empty());
    let docker = DockerMetrics::unavailable();
    assert_eq!(docker.containers_running, 0);
    let kubernetes = K8sMetrics::unavailable();
    assert_eq!(kubernetes.nodes_total, 0);
}
