use kupo_proxy::health::{
    classify, get_health, update_health, Configuration, ConnectionStatus, KupoHealthCheckResponse,
    Poll, Transition,
};

#[test]
fn one_event_per_change_of_status() {
    let polls = [
        Poll::Reported(ConnectionStatus::Connected),
        Poll::Reported(ConnectionStatus::Connected),
        Poll::Reported(ConnectionStatus::Disconnected),
        Poll::Reported(ConnectionStatus::Disconnected),
        Poll::Reported(ConnectionStatus::Disconnected),
        Poll::Reported(ConnectionStatus::Connected),
        Poll::Reported(ConnectionStatus::Connected),
    ];
    let mut status = true;
    let mut events = Vec::new();
    for poll in polls {
        let (next, event) = update_health(status, poll);
        status = next;
        if let Some(event) = event {
            events.push(event);
        }
    }
    assert_eq!(events, vec![Transition::BecameUnhealthy, Transition::BecameHealthy]);
    assert!(status);
}

#[test]
fn first_report_of_a_connected_upstream_is_a_transition() {
    assert_eq!(
        update_health(false, Poll::Reported(ConnectionStatus::Connected)),
        (true, Some(Transition::BecameHealthy))
    );
    assert_eq!(update_health(true, Poll::Reported(ConnectionStatus::Connected)), (true, None));
    assert_eq!(update_health(false, Poll::Reported(ConnectionStatus::Disconnected)), (false, None));
}

#[test]
fn failed_poll_keeps_the_status() {
    for poll in [Poll::NoClient, Poll::Unreachable, Poll::Failed(503), Poll::Unreadable] {
        assert_eq!(update_health(true, poll), (true, None));
        assert_eq!(update_health(false, poll), (false, None));
        assert_eq!(get_health(poll), None);
    }
    assert_eq!(get_health(Poll::Reported(ConnectionStatus::Connected)), Some(true));
    assert_eq!(get_health(Poll::Reported(ConnectionStatus::Disconnected)), Some(false));
}

#[test]
fn answers_are_classified_by_status_first() {
    let up = Some(ConnectionStatus::Connected);
    assert_eq!(classify(200, up), Poll::Reported(ConnectionStatus::Connected));
    assert_eq!(classify(399, up), Poll::Reported(ConnectionStatus::Connected));
    assert_eq!(classify(400, up), Poll::Failed(400));
    assert_eq!(classify(404, None), Poll::Failed(404));
    assert_eq!(classify(599, up), Poll::Failed(599));
    assert_eq!(classify(600, up), Poll::Reported(ConnectionStatus::Connected));
    assert_eq!(classify(200, None), Poll::Unreadable);
    assert_eq!(
        classify(200, Some(ConnectionStatus::Disconnected)),
        Poll::Reported(ConnectionStatus::Disconnected)
    );
}

#[test]
fn health_answer_holds_its_fields() {
    let answer = KupoHealthCheckResponse {
        connection_status: ConnectionStatus::Disconnected,
        most_recent_checkpoint: 7,
        most_recent_node_tip: 9,
        configuration: Configuration { indexes: "deferred".to_string() },
        version: "v2.8.0".to_string(),
    };
    assert_eq!(answer.connection_status, ConnectionStatus::Disconnected);
    assert_eq!(answer.most_recent_node_tip - answer.most_recent_checkpoint, 2);
    assert_eq!(answer.configuration.indexes, "deferred");
    assert_eq!(classify(200, Some(answer.connection_status)), Poll::Reported(ConnectionStatus::Disconnected));
}
