use zero_drift_chat::messaging::provider::{EventSink, MessagingProvider, ProviderError, ProviderEvent};
use zero_drift_chat::messaging::router::{start_failure_event, take_event, MessageRouter};
use zero_drift_chat::messaging::types::{
    AuthStatus, MessageContent, MessageStatus, Platform, Timestamp, UnifiedChat, UnifiedMessage,
};
use zero_drift_chat::providers::mock::MockProvider;

/// A provider for the tests: it fails to start on demand, and announces
/// itself with one event when it does start.
struct TestProvider {
    platform: Platform,
    fail_start: bool,
    running: bool,
    sink: Option<EventSink>,
}

impl TestProvider {
    fn new(platform: Platform, fail_start: bool) -> Self {
        TestProvider { platform, fail_start, running: false, sink: None }
    }
}

impl MessagingProvider for TestProvider {
    fn serves(&self) -> Platform {
        self.platform
    }

    fn is_running(&self) -> bool {
        self.running
    }

    fn start(&mut self, sink: EventSink) -> Result<(), ProviderError> {
        if self.fail_start {
            return Err(ProviderError::TransportFailure("no route".to_string()));
        }
        sink.send(ProviderEvent::AuthStatusChanged(self.platform, AuthStatus::Authenticated));
        self.sink = Some(sink);
        self.running = true;
        Ok(())
    }

    fn stop(&mut self) -> Result<(), ProviderError> {
        self.running = false;
        self.sink = None;
        Ok(())
    }

    fn send_message(&mut self, chat_id: &str, content: MessageContent) -> Result<UnifiedMessage, ProviderError> {
        if !self.running {
            return Err(ProviderError::NotConnected);
        }
        Ok(UnifiedMessage {
            id: "sent-1".to_string(),
            chat_id: chat_id.to_string(),
            platform: self.platform,
            sender: "You".to_string(),
            content,
            timestamp: Timestamp { secs: 0, nanos: 0 },
            status: MessageStatus::Sending,
            is_outgoing: true,
        })
    }

    fn get_chats(&self) -> Result<Vec<UnifiedChat>, ProviderError> {
        Ok(Vec::new())
    }

    fn get_messages(&self, _chat_id: &str) -> Result<Vec<UnifiedMessage>, ProviderError> {
        Ok(Vec::new())
    }

    fn name(&self) -> String {
        "Test".to_string()
    }

    fn platform(&self) -> Platform {
        self.platform
    }

    fn auth_status(&self) -> AuthStatus {
        if self.running {
            AuthStatus::Authenticated
        } else {
            AuthStatus::NotAuthenticated
        }
    }
}

fn qr(n: usize) -> ProviderEvent {
    ProviderEvent::AuthQrCode(format!("code-{}", n))
}

fn qr_number(event: &ProviderEvent) -> String {
    match event {
        ProviderEvent::AuthQrCode(code) => code.clone(),
        other => panic!("not a pairing code: {:?}", other),
    }
}

#[test]
fn drain_caps_and_keeps_the_rest_in_order() {
    let mut router: MessageRouter<MockProvider> = MessageRouter::new();
    let sink = router.sink();
    for n in 0..75 {
        assert!(sink.send(qr(n)));
    }
    let first = router.drain(50);
    assert_eq!(first.len(), 50);
    for (n, event) in first.iter().enumerate() {
        assert_eq!(qr_number(event), format!("code-{}", n));
    }
    let second = router.drain(50);
    assert_eq!(second.len(), 25);
    for (n, event) in second.iter().enumerate() {
        assert_eq!(qr_number(event), format!("code-{}", n + 50));
    }
    assert_eq!(router.drain(50).len(), 0);
}

#[test]
fn drain_of_nothing_takes_nothing() {
    let mut router: MessageRouter<MockProvider> = MessageRouter::new();
    let sink = router.sink();
    assert!(sink.send(qr(1)));
    assert_eq!(router.drain(0).len(), 0);
    assert_eq!(router.poll_events().len(), 1);
}

#[test]
fn each_producer_keeps_its_own_order() {
    let mut router: MessageRouter<MockProvider> = MessageRouter::new();
    let a = router.sink();
    let b = a.clone();
    a.send(qr(1));
    b.send(qr(100));
    a.send(qr(2));
    b.send(qr(101));
    let got: Vec<String> = router.drain(10).iter().map(qr_number).collect();
    assert_eq!(got, vec!["code-1", "code-100", "code-2", "code-101"]);
}

#[test]
fn failing_provider_does_not_keep_the_next_from_starting() {
    let mut router: MessageRouter<TestProvider> = MessageRouter::new();
    router.register_provider(TestProvider::new(Platform::WhatsApp, true));
    router.register_provider(TestProvider::new(Platform::Slack, false));
    let started = router.start_all();
    assert_eq!(started.len(), 2);
    assert!(matches!(started[0], Err(ProviderError::TransportFailure(_))));
    assert!(started[1].is_ok());
    assert!(!router.get_provider(Platform::WhatsApp).unwrap().running);
    assert!(router.get_provider(Platform::Slack).unwrap().running);
    // The failure is told as an event; the events of the second provider follow.
    let events = router.drain(50);
    assert_eq!(events.len(), 2);
    assert!(matches!(
        events[0],
        ProviderEvent::AuthStatusChanged(Platform::WhatsApp, AuthStatus::Failed)
    ));
    assert!(matches!(
        events[1],
        ProviderEvent::AuthStatusChanged(Platform::Slack, AuthStatus::Authenticated)
    ));
}

#[test]
fn outbound_goes_to_the_owner_of_the_chat() {
    let mut router: MessageRouter<TestProvider> = MessageRouter::new();
    router.register_provider(TestProvider::new(Platform::Telegram, false));
    router.register_provider(TestProvider::new(Platform::Slack, false));
    router.start_all();
    let chat = UnifiedChat {
        id: "sl-7".to_string(),
        platform: Platform::Slack,
        name: "Team".to_string(),
        display_name: None,
        last_message: None,
        unread_count: 0,
        is_group: true,
    };
    assert_eq!(router.route_outbound(&chat).unwrap().platform, Platform::Slack);
    let sent = router.send_to_chat(&chat, MessageContent::Text("hi".to_string())).unwrap();
    assert_eq!(sent.platform, Platform::Slack);
    assert_eq!(sent.chat_id, "sl-7");
    assert!(sent.is_outgoing);

    let orphan = UnifiedChat { platform: Platform::WhatsApp, ..chat.clone() };
    assert!(router.route_outbound(&orphan).is_none());
    assert!(matches!(
        router.send_to_chat(&orphan, MessageContent::Text("hi".to_string())),
        Err(ProviderError::NotConnected)
    ));
}

#[test]
fn stopped_provider_refuses_to_send() {
    let mut router: MessageRouter<MockProvider> = MessageRouter::new();
    router.register_provider(MockProvider::new(3, 5));
    let started = router.start_all();
    assert!(started[0].is_ok());
    let chats = router.get_provider(Platform::Mock).unwrap().get_chats().unwrap();
    assert_eq!(chats.len(), 3);
    assert!(router.send_to_chat(&chats[0], MessageContent::Text("hi".to_string())).is_ok());
    let stopped = router.stop_all();
    assert!(stopped[0].is_ok());
    assert!(matches!(
        router.send_to_chat(&chats[0], MessageContent::Text("hi".to_string())),
        Err(ProviderError::NotConnected)
    ));
}

#[test]
fn a_step_of_draining_keeps_what_the_queue_handed_out() {
    let mut taken = Vec::new();
    assert!(take_event(&mut taken, Some(qr(1))));
    assert!(take_event(&mut taken, Some(qr(2))));
    assert!(!take_event(&mut taken, None));
    let got: Vec<String> = taken.iter().map(qr_number).collect();
    assert_eq!(got, vec!["code-1", "code-2"]);
}

#[test]
fn a_failed_start_is_told_as_an_event() {
    let failed: Result<(), ProviderError> = Err(ProviderError::NotAuthenticated);
    assert!(matches!(
        start_failure_event(Platform::Telegram, &failed),
        Some(ProviderEvent::AuthStatusChanged(Platform::Telegram, AuthStatus::Failed))
    ));
    assert!(start_failure_event(Platform::Telegram, &Ok(())).is_none());
}

#[test]
fn the_first_provider_of_a_platform_is_the_one_handed_out() {
    let mut router: MessageRouter<TestProvider> = MessageRouter::new();
    router.register_provider(TestProvider::new(Platform::Slack, true));
    router.register_provider(TestProvider::new(Platform::Slack, false));
    router.register_provider(TestProvider::new(Platform::Mock, false));
    assert!(router.get_provider(Platform::Slack).unwrap().fail_start);
    assert_eq!(router.provider_index(Platform::Slack), 0);
    assert_eq!(router.provider_index(Platform::Mock), 2);
    assert_eq!(router.provider_index(Platform::WhatsApp), 3);
    assert!(router.get_provider_mut(Platform::WhatsApp).is_none());
    // What is changed through the router stays changed in it.
    router.get_provider_mut(Platform::Slack).unwrap().fail_start = false;
    assert!(!router.get_provider(Platform::Slack).unwrap().fail_start);
    let started = router.start_all();
    assert!(started.iter().all(|s| s.is_ok()));
    assert!(router.get_provider(Platform::Mock).unwrap().running);
}
