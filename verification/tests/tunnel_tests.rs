use myr::tunnel::{tunnel_next, TunnelConfig, TunnelEvent, TunnelState, TunnelStep};

#[test]
fn test_tunnel_config_construction() {
    let config = TunnelConfig {
        saga_host: "192.168.4.111".to_string(),
        saga_voice_ip: "10.0.0.60".to_string(),
        saga_voice_port: "8765".to_string(),
        local_port: "18765".to_string(),
    };

    assert_eq!(config.saga_host, "192.168.4.111");
    assert_eq!(config.saga_voice_ip, "10.0.0.60");
    assert_eq!(config.saga_voice_port, "8765");
    assert_eq!(config.local_port, "18765");
}

#[test]
fn tunnel_commands_name_both_ends() {
    let config = TunnelConfig {
        saga_host: "192.168.4.111".to_string(),
        saga_voice_ip: "10.0.0.60".to_string(),
        saga_voice_port: "8765".to_string(),
        local_port: "18765".to_string(),
    };
    assert_eq!(config.health_url(), "http://localhost:18765/health");
    assert_eq!(config.bind_spec(), "18765:10.0.0.60:8765");
    assert_eq!(config.pkill_pattern(), "ssh.*-L.*18765:10.0.0.60:8765");
    assert_eq!(config.ssh_target(), "root@192.168.4.111");
}

fn saga() -> TunnelConfig {
    TunnelConfig {
        saga_host: "192.168.4.111".to_string(),
        saga_voice_ip: "10.0.0.60".to_string(),
        saga_voice_port: "8765".to_string(),
        local_port: "18765".to_string(),
    }
}

#[test]
fn healthy_tunnel_is_reused() {
    let c = saga();
    let (s, step) = tunnel_next(&c, TunnelState::Idle, TunnelEvent::Begin);
    assert_eq!(s, TunnelState::FirstCheck);
    assert_eq!(step, TunnelStep::Check("http://localhost:18765/health".to_string()));
    let (s, step) = tunnel_next(&c, s, TunnelEvent::Health(true));
    assert_eq!(s, TunnelState::Done);
    assert_eq!(step, TunnelStep::Reuse);
}

#[test]
fn tunnel_is_rebuilt_and_checked_again() {
    let c = saga();
    let (s, step) = tunnel_next(&c, TunnelState::FirstCheck, TunnelEvent::Health(false));
    assert_eq!(s, TunnelState::Killing);
    assert_eq!(step, TunnelStep::Kill("ssh.*-L.*18765:10.0.0.60:8765".to_string()));
    let (s, step) = tunnel_next(&c, s, TunnelEvent::Killed);
    assert_eq!(s, TunnelState::Spawning);
    assert_eq!(
        step,
        TunnelStep::Spawn("18765:10.0.0.60:8765".to_string(), "root@192.168.4.111".to_string())
    );
    let (s, step) = tunnel_next(&c, s, TunnelEvent::Spawned(true));
    assert_eq!(s, TunnelState::SecondCheck);
    assert_eq!(step, TunnelStep::Recheck("http://localhost:18765/health".to_string()));
    let (s, step) = tunnel_next(&c, s, TunnelEvent::Health(true));
    assert_eq!(s, TunnelState::Done);
    assert_eq!(step, TunnelStep::Ready);
}

#[test]
fn tunnel_failures_have_their_messages() {
    let c = saga();
    let (s, step) = tunnel_next(&c, TunnelState::Spawning, TunnelEvent::Spawned(false));
    assert_eq!(s, TunnelState::Done);
    assert_eq!(step, TunnelStep::Fail("Failed to spawn SSH tunnel".to_string()));
    let (s, step) = tunnel_next(&c, TunnelState::SecondCheck, TunnelEvent::Health(false));
    assert_eq!(s, TunnelState::Done);
    assert_eq!(
        step,
        TunnelStep::Fail(
            "Cannot reach Voice API at http://localhost:18765/health. Check SSH connection."
                .to_string()
        )
    );
}
