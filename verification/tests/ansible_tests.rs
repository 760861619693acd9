use obsengine::ansible::{
    generate_playbook_yaml, parse_host_list, parse_inventory, PlaybookInfo, TaskInfo,
};

#[test]
fn inventory_hosts_fall_under_their_groups() {
    let text = "\
[web]
web1 ansible_host=10.0.0.1 ansible_user=admin
web2

[db]
db1 ansible_port=5432 role=primary
";
    let hosts = parse_inventory(text);
    assert_eq!(hosts.len(), 3);

    assert_eq!(hosts[0].name, "web1");
    assert_eq!(hosts[0].group, "web");
    assert_eq!(hosts[0].ansible_host.as_deref(), Some("10.0.0.1"));
    assert_eq!(hosts[0].ansible_user.as_deref(), Some("admin"));
    assert_eq!(hosts[0].ansible_port, None);
    assert!(hosts[0].variables.is_empty());

    assert_eq!(hosts[1].name, "web2");
    assert_eq!(hosts[1].group, "web");

    assert_eq!(hosts[2].name, "db1");
    assert_eq!(hosts[2].group, "db");
    assert_eq!(hosts[2].ansible_port, Some(5432));
    assert_eq!(
        hosts[2].variables,
        vec![("role".to_string(), "primary".to_string())]
    );
}

#[test]
fn inventory_without_group_lines_is_ungrouped() {
    let hosts = parse_inventory("alpha\nbeta x=1");
    assert_eq!(hosts.len(), 2);
    assert_eq!(hosts[0].group, "ungrouped");
    assert_eq!(hosts[1].group, "ungrouped");
    assert_eq!(hosts[1].variables, vec![("x".to_string(), "1".to_string())]);
}

#[test]
fn inventory_skips_comments_and_blank_lines() {
    let hosts = parse_inventory("# a comment\n\n   \nhost1\n# another\n");
    assert_eq!(hosts.len(), 1);
    assert_eq!(hosts[0].name, "host1");
}

#[test]
fn inventory_port_must_be_a_number_in_range() {
    let hosts = parse_inventory(
        "h1 ansible_port=22\nh2 ansible_port=70000\nh3 ansible_port=abc\nh4 ansible_port=+443\n",
    );
    assert_eq!(hosts[0].ansible_port, Some(22));
    assert_eq!(hosts[1].ansible_port, None);
    assert_eq!(hosts[2].ansible_port, None);
    assert_eq!(hosts[3].ansible_port, Some(443));
}

#[test]
fn inventory_trims_windows_line_endings() {
    let hosts = parse_inventory("[app]\r\nnode1 ansible_host=192.168.0.9\r\n");
    assert_eq!(hosts.len(), 1);
    assert_eq!(hosts[0].group, "app");
    assert_eq!(hosts[0].name, "node1");
    assert_eq!(hosts[0].ansible_host.as_deref(), Some("192.168.0.9"));
}

#[test]
fn host_list_skips_the_header_line() {
    let output = "  hosts (3):\n    web1\n    web2\n\n    db1\n";
    let hosts = parse_host_list(output);
    assert_eq!(
        hosts,
        vec!["web1".to_string(), "web2".to_string(), "db1".to_string()]
    );
}

#[test]
fn host_list_of_empty_output_is_empty() {
    let hosts = parse_host_list("");
    assert!(hosts.is_empty());
}

#[test]
fn playbook_renders_with_vars_and_tags() {
    let playbook = PlaybookInfo {
        name: "Deploy".to_string(),
        path: "/tmp/deploy.yml".to_string(),
        hosts: vec!["web1".to_string(), "web2".to_string()],
        tasks: vec![TaskInfo {
            name: "Install package".to_string(),
            module: "apt".to_string(),
            parameters: vec![("name".to_string(), "nginx".to_string())],
            tags: vec!["setup".to_string(), "web".to_string()],
        }],
        variables: vec![("env".to_string(), "prod".to_string())],
    };
    let yaml = generate_playbook_yaml(&playbook);
    // The module line keeps a trailing space before its newline.
    let expected = "---\n- name: Deploy\n  hosts: web1,web2\n  vars:\n    env: prod\n  tasks:\n    - name: Install package\n      apt: \n        name: nginx\n      tags: setup, web\n";
    assert_eq!(yaml, expected);
}

#[test]
fn playbook_without_vars_has_no_vars_block() {
    let playbook = PlaybookInfo {
        name: "Ping".to_string(),
        path: "/tmp/ping.yml".to_string(),
        hosts: vec!["all".to_string()],
        tasks: vec![TaskInfo {
            name: "Ping hosts".to_string(),
            module: "ping".to_string(),
            parameters: vec![],
            tags: vec![],
        }],
        variables: vec![],
    };
    let yaml = generate_playbook_yaml(&playbook);
    let expected = "---\n- name: Ping\n  hosts: all\n  tasks:\n    - name: Ping hosts\n      ping: \n";
    assert_eq!(yaml, expected);
}
