use tunnel_supervisor::args::{build_cloudflare_args, build_ssh_args};
use tunnel_supervisor::text::{dec_i32, dec_u16, dec_u32};
use tunnel_supervisor::types::{CloudflareConfig, SshConfig};

fn sample(key_file: Option<&str>) -> SshConfig {
    SshConfig {
        id: "tun1".to_string(),
        host: "example.com".to_string(),
        port: 2222,
        username: "alice".to_string(),
        key_file: key_file.map(|k| k.to_string()),
        remote_port: 9000,
        local_port: 8317,
        enabled: true,
    }
}

#[test]
fn ssh_args_without_key_file() {
    let args = build_ssh_args(&sample(None));
    let expected = vec![
        "-N",
        "-v",
        "-o",
        "BatchMode=yes",
        "-o",
        "ServerAliveInterval=15",
        "-o",
        "ServerAliveCountMax=3",
        "-o",
        "ExitOnForwardFailure=yes",
        "-o",
        "StrictHostKeyChecking=accept-new",
        "-o",
        "UserKnownHostsFile=/dev/null",
        "-R",
        "9000:127.0.0.1:8317",
        "-p",
        "2222",
        "alice@example.com",
    ];
    assert_eq!(args, expected);
}

#[test]
fn ssh_args_with_key_file() {
    let args = build_ssh_args(&sample(Some("/home/alice/.ssh/id_ed25519")));
    let tail = vec![
        "-R",
        "9000:127.0.0.1:8317",
        "-i",
        "/home/alice/.ssh/id_ed25519",
        "-p",
        "2222",
        "alice@example.com",
    ];
    assert_eq!(&args[14..], tail.as_slice());
}

#[test]
fn ssh_args_ignore_an_empty_key_file() {
    let args = build_ssh_args(&sample(Some("")));
    assert_eq!(args, build_ssh_args(&sample(None)));
}

#[test]
fn cloudflare_args_pass_the_token_alone() {
    let c = CloudflareConfig {
        id: "cf1".to_string(),
        name: "edge".to_string(),
        tunnel_token: "SECRET-REDACTED".to_string(),
        local_port: 8317,
        enabled: true,
    };
    assert_eq!(build_cloudflare_args(&c), vec!["SECRET-REDACTED".to_string()]);
}

#[test]
fn decimal_renderings_are_exact() {
    assert_eq!(dec_u16(0), "0");
    assert_eq!(dec_u16(7), "7");
    assert_eq!(dec_u16(8317), "8317");
    assert_eq!(dec_u16(65535), "65535");
    assert_eq!(dec_u32(1000000), "1000000");
    assert_eq!(dec_i32(0), "0");
    assert_eq!(dec_i32(255), "255");
    assert_eq!(dec_i32(-1), "-1");
    assert_eq!(dec_i32(i32::MIN), "-2147483648");
}
