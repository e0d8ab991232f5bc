use call_proxy::call::{CallModule, MonitorEvent, OPTIONS_INTERVAL, SESSION_TIMEOUT};
use call_proxy::config::{MediaProxyConfig, MediaProxyMode, ProxyConfig};
use call_proxy::dialog::DialogId;
use call_proxy::sessions::Session;
use call_proxy::sip::{Header, Method, Request};
use std::sync::{Arc, Mutex};
use std::time::Duration;

/// One second.
const SECOND: u128 = 1_000_000_000;

/// A moment well after the beginning of time.
const NOW: u128 = 1_000_000 * SECOND;

fn config(mode: MediaProxyMode) -> ProxyConfig {
    ProxyConfig { media_proxy: MediaProxyConfig { mode }, enable_forwarding: None }
}

fn module() -> CallModule {
    CallModule::new(config(MediaProxyMode::Off))
}

fn create_test_dialog_id(call_id: &str, from_tag: &str, to_tag: &str) -> DialogId {
    DialogId {
        call_id: call_id.to_string(),
        from_tag: from_tag.to_string(),
        to_tag: to_tag.to_string(),
    }
}

fn session(dialog_id: &DialogId, last_activity: u128, caller: &str, callee: &str) -> Session {
    Session {
        dialog_id: dialog_id.clone(),
        last_activity,
        parties: (caller.to_string(), callee.to_string()),
    }
}

fn create_test_request(method: Method, username: &str, realm: &str) -> Request {
    Request {
        method,
        uri: format!("sip:{}@{}", username, realm),
        headers: vec![
            Header::Via("SIP/2.0/UDP 127.0.0.1:5060;branch=z9hG4bKnashds8".to_string()),
            Header::CSeq("1 INVITE".to_string()),
            Header::From(format!("<sip:{}@{}>;tag=from-tag", username, realm)),
            Header::To(format!("<sip:{}@{}>", username, realm)),
            Header::CallId("test-call-id".to_string()),
        ],
        body: Vec::new(),
    }
}

#[test]
fn test_call_module_basics() {
    let _module = module();

    assert_eq!(_module.name(), "call");
}

#[test]
fn test_call_module_creation() {
    let _module = module();

    assert_eq!(_module.name(), "call");
}

#[test]
fn create_gives_the_same_module_as_new() {
    let module = CallModule::create(config(MediaProxyMode::All)).unwrap();

    assert_eq!(module.name(), "call");
    assert_eq!(module.inner.config, config(MediaProxyMode::All));
    assert_eq!(module.inner.sessions.len(), 0);
    assert_eq!(module.inner.session_timeout, SESSION_TIMEOUT);
    assert_eq!(module.inner.options_interval, OPTIONS_INTERVAL);
    assert_eq!(SESSION_TIMEOUT, Duration::from_secs(300).as_nanos());
    assert_eq!(OPTIONS_INTERVAL, Duration::from_secs(30).as_nanos());
}

const SDP: &[u8] = b"v=0\r\no=alice 123 123 IN IP4 192.168.1.100\r\ns=Call\r\nc=IN IP4 192.168.1.100\r\nt=0 0\r\nm=audio 49170 RTP/AVP 0\r\n";

#[test]
fn test_media_proxy_nat_only() {
    let module = CallModule::new(config(MediaProxyMode::NatOnly));

    let mut request = create_test_request(Method::Invite, "alice", "example.com");
    request.body = SDP.to_vec();
    request.headers.push(Header::ContentType("application/sdp".to_string()));

    // The description that is looked through is the body; it names a private address.
    let sdp = module.sdp_to_inspect(&request).unwrap();
    assert!(sdp.contains("c=IN IP4 192.168.1.100\r\n"));
    assert_eq!(sdp.as_bytes(), SDP);

    let should_proxy = module.should_use_media_proxy(&request, Some(true)).unwrap();
    assert!(should_proxy);
}

#[test]
fn test_media_proxy_none_mode() {
    let module = CallModule::new(config(MediaProxyMode::Off));

    let request = create_test_request(Method::Invite, "alice", "example.com");

    let should_proxy = module.should_use_media_proxy(&request, None).unwrap();
    assert!(!should_proxy);
}

#[test]
fn test_media_proxy_all_mode() {
    let module = CallModule::new(config(MediaProxyMode::All));

    let request = create_test_request(Method::Invite, "alice", "example.com");

    let should_proxy = module.should_use_media_proxy(&request, None).unwrap();
    assert!(should_proxy);
}

#[test]
fn nat_only_needs_a_readable_description_with_a_private_address() {
    let module = CallModule::new(config(MediaProxyMode::NatOnly));
    let plain = create_test_request(Method::Invite, "alice", "example.com");
    assert_eq!(module.sdp_to_inspect(&plain), None);
    assert_eq!(module.should_use_media_proxy(&plain, Some(true)), Ok(false));

    let mut text = create_test_request(Method::Invite, "alice", "example.com");
    text.headers.push(Header::ContentType("text/plain".to_string()));
    text.headers.push(Header::ContentType("application/sdp".to_string()));
    assert_eq!(module.sdp_to_inspect(&text), None);
    assert_eq!(module.should_use_media_proxy(&text, Some(true)), Ok(false));

    let mut sdp = create_test_request(Method::Invite, "alice", "example.com");
    sdp.headers.push(Header::ContentType("multipart/mixed, application/sdp; a=b".to_string()));
    assert_eq!(module.sdp_to_inspect(&sdp), Some(String::new()));
    assert_eq!(module.should_use_media_proxy(&sdp, Some(true)), Ok(true));
    assert_eq!(module.should_use_media_proxy(&sdp, Some(false)), Ok(false));
    assert_eq!(module.should_use_media_proxy(&sdp, None), Ok(false));
}

#[test]
fn a_description_that_is_not_utf8_is_repaired() {
    let module = CallModule::new(config(MediaProxyMode::NatOnly));
    let mut request = create_test_request(Method::Invite, "alice", "example.com");
    request.headers.push(Header::ContentType("application/sdp".to_string()));
    request.body = vec![b'a', 0xff, b'b'];
    assert_eq!(module.sdp_to_inspect(&request).unwrap(), "a\u{fffd}b");
    request.body = vec![0xc3, 0xa9];
    assert_eq!(module.sdp_to_inspect(&request).unwrap(), "\u{e9}");
}

#[test]
fn test_options_handling() {
    let mut module = module();

    assert!(module.allow_methods().contains(&Method::Options));

    let dialog_id = create_test_dialog_id("test-call-id", "from-tag", "to-tag");
    let old = session(&dialog_id, NOW - 10 * SECOND, "alice", "bob");
    module.inner.sessions.insert(dialog_id.clone(), old);

    let old_time = module.inner.sessions.get(&dialog_id).unwrap().last_activity;

    module.note_activity(Some(dialog_id.clone()), NOW);

    let new_time = module.inner.sessions.get(&dialog_id).unwrap().last_activity;
    assert!(new_time > old_time);
    assert_eq!(new_time, NOW);
}

#[test]
fn allowed_methods_are_those_of_calls() {
    assert_eq!(
        module().allow_methods(),
        vec![
            Method::Invite,
            Method::Bye,
            Method::Info,
            Method::Ack,
            Method::Cancel,
            Method::Options,
        ]
    );
}

#[test]
fn test_external_realm_forwarding() {
    let module = module();

    let local_realm = "localhost";
    let external_realm = "external.com";
    assert_ne!(local_realm, external_realm);
    assert!(external_realm != local_realm);

    // A request for another realm is not passed on.
    assert!(module.forward_to_proxy().is_err());
}

#[test]
fn test_session_management() {
    let mut module = module();

    let dialog_id = create_test_dialog_id("test-call-id", "from-tag", "to-tag");
    let fresh = session(&dialog_id, NOW, "alice", "bob");
    module.inner.sessions.insert(dialog_id.clone(), fresh);
    assert!(module.inner.sessions.contains_key(&dialog_id));

    module.check_sessions(NOW);

    assert!(module.inner.sessions.contains_key(&dialog_id));
}

#[test]
fn test_session_timeout() {
    let mut module = module();

    let dialog_id = create_test_dialog_id("test-call-id", "from-tag", "to-tag");
    let silent = session(&dialog_id, NOW - 400 * SECOND, "alice", "bob");
    module.inner.sessions.insert(dialog_id.clone(), silent);
    assert!(module.inner.sessions.contains_key(&dialog_id));

    module.check_sessions(NOW);

    assert!(!module.inner.sessions.contains_key(&dialog_id));
}

#[test]
fn test_module_lifecycle() {
    let mut module = module();

    let start_result = module.on_start();
    assert!(start_result.is_ok());

    let stop_result = module.on_stop();
    assert!(stop_result.is_ok());

    assert!(module.on_transaction_end().is_ok());
}

#[test]
fn test_dialog_activity_update() {
    let mut module = module();

    let dialog_id = create_test_dialog_id("test-call-id", "from-tag", "to-tag");
    let initial_time = NOW - 10 * SECOND;
    let old = session(&dialog_id, initial_time, "alice", "bob");
    module.inner.sessions.insert(dialog_id.clone(), old);

    module.inner.sessions.touch(&dialog_id, NOW);

    let updated_session = module.inner.sessions.get(&dialog_id).cloned();
    assert!(updated_session.is_some());
    let session = updated_session.unwrap();
    assert!(session.last_activity > initial_time);
    assert_eq!(session.parties, ("alice".to_string(), "bob".to_string()));
}

#[test]
fn test_concurrent_session_access() {
    let mut module = module();
    let dialog_id = create_test_dialog_id("test-call-id", "from-tag", "to-tag");
    let fresh = session(&dialog_id, NOW, "alice", "bob");
    module.inner.sessions.insert(dialog_id.clone(), fresh);

    let module = Arc::new(Mutex::new(module));
    let module_clone = module.clone();
    let dialog_id_clone = dialog_id.clone();

    let runtime = tokio::runtime::Runtime::new().unwrap();
    runtime.block_on(async move {
        let handle1 = tokio::spawn(async move {
            for _ in 0..10 {
                {
                    let module = module_clone.lock().unwrap();
                    let _session = module.inner.sessions.get(&dialog_id_clone);
                }
                tokio::time::sleep(Duration::from_millis(1)).await;
            }
        });
        let handle2 = tokio::spawn(async move {
            for i in 0..10 {
                {
                    let mut module = module.lock().unwrap();
                    module.inner.sessions.touch(&dialog_id, NOW + i);
                }
                tokio::time::sleep(Duration::from_millis(1)).await;
            }
        });
        assert!(handle1.await.is_ok());
        assert!(handle2.await.is_ok());
    });
}

#[test]
fn test_session_timeout_with_active_sessions() {
    let mut module = module();

    let expired_dialog_id = create_test_dialog_id("expired-call-id", "from-tag", "to-tag");
    let active_dialog_id = create_test_dialog_id("active-call-id", "from-tag", "to-tag");
    let expired_session = session(&expired_dialog_id, NOW - 400 * SECOND, "alice", "bob");
    let active_session = session(&active_dialog_id, NOW, "charlie", "dave");
    module.inner.sessions.insert(expired_dialog_id.clone(), expired_session);
    module.inner.sessions.insert(active_dialog_id.clone(), active_session);
    assert_eq!(module.inner.sessions.len(), 2);

    module.check_sessions(NOW);

    assert_eq!(module.inner.sessions.len(), 1);
    assert!(!module.inner.sessions.contains_key(&expired_dialog_id));
    assert!(module.inner.sessions.contains_key(&active_dialog_id));
}

#[test]
fn a_session_lasts_for_exactly_the_timeout() {
    let mut module = module();
    let id = create_test_dialog_id("c", "a", "b");
    module.inner.sessions.insert(id.clone(), session(&id, NOW, "alice", "bob"));

    module.check_sessions(NOW - SECOND);
    module.check_sessions(NOW + SESSION_TIMEOUT);
    assert!(module.inner.sessions.contains_key(&id));
    module.check_sessions(NOW + SESSION_TIMEOUT + 1);
    assert!(!module.inner.sessions.contains_key(&id));
}

#[test]
fn the_monitor_checks_until_it_is_cancelled() {
    let mut module = module();
    let id = create_test_dialog_id("c", "a", "b");
    module.inner.sessions.insert(id.clone(), session(&id, NOW, "alice", "bob"));

    assert!(module.monitor_sessions(MonitorEvent::Tick(NOW + OPTIONS_INTERVAL)));
    assert_eq!(module.inner.sessions.len(), 1);
    assert!(!module.monitor_sessions(MonitorEvent::Cancelled));
    assert_eq!(module.inner.sessions.len(), 1);
    assert!(module.monitor_sessions(MonitorEvent::Tick(NOW + SESSION_TIMEOUT + 1)));
    assert_eq!(module.inner.sessions.len(), 0);
}

#[test]
fn activity_puts_the_timeout_off() {
    let mut module = module();
    let id = create_test_dialog_id("c", "a", "b");
    let other = create_test_dialog_id("d", "a", "b");
    module.inner.sessions.insert(id.clone(), session(&id, NOW, "alice", "bob"));
    module.inner.sessions.insert(other.clone(), session(&other, NOW, "carol", "dave"));

    let later = NOW + 200 * SECOND;
    module.note_activity(Some(create_test_dialog_id("c", "b", "a")), later);
    module.note_activity(None, later);
    module.check_sessions(later + SESSION_TIMEOUT);
    assert!(module.inner.sessions.contains_key(&id));
    assert!(!module.inner.sessions.contains_key(&other));
}

#[test]
fn checking_twice_is_checking_at_the_later_moment() {
    let times = [NOW, NOW + 100 * SECOND, NOW + 200 * SECOND];
    for earlier in [NOW + 350 * SECOND, NOW + 450 * SECOND] {
        let mut once = module();
        let mut twice = module();
        for (i, time) in times.iter().enumerate() {
            let id = create_test_dialog_id(&format!("call-{}", i), "a", "b");
            once.inner.sessions.insert(id.clone(), session(&id, *time, "x", "y"));
            twice.inner.sessions.insert(id.clone(), session(&id, *time, "x", "y"));
        }
        twice.check_sessions(earlier);
        twice.check_sessions(NOW + 460 * SECOND);
        once.check_sessions(NOW + 460 * SECOND);
        assert_eq!(once.inner.sessions.len(), 1);
        assert_eq!(twice.inner.sessions.len(), 1);
    }
}
