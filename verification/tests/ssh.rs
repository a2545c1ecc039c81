use kaforge::config::ConnectionConfig;
use kaforge::ssh::{fill_known_hosts, first_broker, plan_ssh_forward, split_host_port, tunneled_bootstrap, SshAuth};

#[test]
fn host_and_port_split() {
    assert_eq!(split_host_port("kafka:9093"), ("kafka".to_string(), 9093));
    assert_eq!(split_host_port("kafka"), ("kafka".to_string(), 9092));
    assert_eq!(split_host_port("kafka:99999"), ("kafka:99999".to_string(), 9092));
    assert_eq!(split_host_port("kafka:+80"), ("kafka".to_string(), 80));
    assert_eq!(split_host_port("kafka:-1"), ("kafka:-1".to_string(), 9092));
    assert_eq!(split_host_port("[::1]:9094"), ("[::1]".to_string(), 9094));
    assert_eq!(split_host_port("h:"), ("h:".to_string(), 9092));
}

#[test]
fn first_broker_is_trimmed() {
    assert_eq!(first_broker(" a:1 , b:2"), "a:1");
    assert_eq!(first_broker("single:9"), "single:9");
    assert_eq!(first_broker(""), "");
}

#[test]
fn forward_plan() {
    let mut cfg = ConnectionConfig::default();
    cfg.bootstrap_servers = "broker:19092,other:1".into();
    assert_eq!(plan_ssh_forward(&cfg).unwrap_err().message(), "SSH host and user are required");
    cfg.ssh_host = "bastion".into();
    cfg.ssh_user = "  ".into();
    assert!(plan_ssh_forward(&cfg).is_err());
    cfg.ssh_user = "ops".into();
    cfg.ssh_password = "pw".into();
    let plan = plan_ssh_forward(&cfg).unwrap();
    assert_eq!(plan.ssh_port, 22);
    assert_eq!(plan.remote_host, "broker");
    assert_eq!(plan.remote_port, 19092);
    assert!(matches!(plan.auth, SshAuth::Password(ref p) if p == "pw"));
    cfg.ssh_port = 2200;
    cfg.ssh_key_file = " ~/.ssh/id ".into();
    let plan = plan_ssh_forward(&cfg).unwrap();
    assert_eq!(plan.ssh_port, 2200);
    assert!(matches!(plan.auth, SshAuth::KeyFile(ref k) if k == "~/.ssh/id"));
}

#[test]
fn known_hosts_default() {
    let mut cfg = ConnectionConfig::default();
    fill_known_hosts(&mut cfg, "/cfg/known_hosts".into());
    assert_eq!(cfg.ssh_known_hosts_path, "");
    cfg.ssh = true;
    fill_known_hosts(&mut cfg, "/cfg/known_hosts".into());
    assert_eq!(cfg.ssh_known_hosts_path, "/cfg/known_hosts");
    fill_known_hosts(&mut cfg, "/other".into());
    assert_eq!(cfg.ssh_known_hosts_path, "/cfg/known_hosts");
}

#[test]
fn tunnel_bootstrap_is_local() {
    assert_eq!(tunneled_bootstrap(40123), "127.0.0.1:40123");
    assert_eq!(tunneled_bootstrap(0), "127.0.0.1:0");
}
