use agent_protocols::http_client::{
    encode_query_component, join_url, sse_events_url, MyRoomsOptions, PublicRoomsOptions, RoomEventsOptions,
};

#[test]
fn builds_sse_events_url_variants() {
    assert_eq!(
        sse_events_url("https://api.example.com", "room123"),
        "https://api.example.com/v1/rooms/room123/events/live"
    );
    assert_eq!(
        sse_events_url("http://api.example.com/", "room 1"),
        "http://api.example.com/v1/rooms/room%201/events/live"
    );
    assert_eq!(sse_events_url("ftp://api.example.com", "r"), "ftp://api.example.com/v1/rooms/r/events/live");
}

#[test]
fn encodes_query_components() {
    assert_eq!(encode_query_component("a b"), "a%20b");
    assert_eq!(encode_query_component("A-z_0.9~"), "A-z_0.9~");
    assert_eq!(encode_query_component("é/?"), "%C3%A9%2F%3F");
    assert_eq!(encode_query_component(""), "");
}

#[test]
fn builds_query_strings() {
    let public = PublicRoomsOptions {
        status: Some("active".to_owned()),
        tag: Some("a b".to_owned()),
        limit: Some(5),
        cursor: Some("c d".to_owned()),
        ..PublicRoomsOptions::default()
    };
    assert_eq!(public.query_string(), "status=active&tag=a%20b&limit=5&cursor=c%20d");
    let events = RoomEventsOptions { after_seq: Some(3), limit: Some(10), ..RoomEventsOptions::default() };
    assert_eq!(events.query_string(), "after_seq=3&limit=10");
    assert_eq!(RoomEventsOptions::default().query_string(), "");
    let mine = MyRoomsOptions { membership: Some("member".to_owned()), ..MyRoomsOptions::default() };
    assert_eq!(mine.query_string(), "membership=member");
    let window = PublicRoomsOptions { starts_after: Some(-5), ends_before: Some(10), ..PublicRoomsOptions::default() };
    assert_eq!(window.query_string(), "starts_after=-5&ends_before=10");
}

#[test]
fn joins_base_and_path() {
    assert_eq!(join_url("https://h.example//", "//v1/rooms"), "https://h.example/v1/rooms");
    assert_eq!(join_url("https://h.example", "v1"), "https://h.example/v1");
}
