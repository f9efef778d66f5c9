use aurelius::connection::{Answer, Connection, Opening, Transmission};
use aurelius::hub::Hub;

/// Renders markdown as the publisher does before it hands content over.
fn render(markdown: &str) -> String {
    let document = hoedown::Markdown::new(markdown);
    let mut html = hoedown::Html::new(hoedown::renderer::html::Flags::empty(), 0);
    hoedown::Render::render(&mut html, &document).to_str().unwrap().to_owned()
}

/// Connects a viewer: the handshake on the server side.
fn connect(hub: &mut Hub) -> Connection {
    let mut connection = Connection::new();
    let answer = connection.open(hub, &Opening::Upgrade(Vec::new()));
    assert_eq!(answer, Answer::Accept(None));
    connection
}

/// Receives the next message as a client does: takes what the outbound
/// path writes and reads it with the client side of the protocol.
fn receive(connection: &mut Connection, hub: &mut Hub) -> String {
    let frame = match connection.on_outbound(hub) {
        Transmission::Send(frame) => frame,
        other => panic!("nothing to receive: {:?}", other),
    };
    let bytes = frame.encode().unwrap();
    let mut reader = &bytes[..];
    let read = websocket::dataframe::DataFrame::read_dataframe(&mut reader, false).unwrap();
    assert!(reader.is_empty());
    assert_eq!(read.opcode, websocket::dataframe::Opcode::Text);
    String::from_utf8(read.data).unwrap()
}

#[test]
fn test_initial_send() {
    let mut hub = Hub::new();
    let mut viewer = connect(&mut hub);

    hub.publish(render("Hello world!"));

    assert_eq!(receive(&mut viewer, &mut hub), "<p>Hello world!</p>\n");
}

#[test]
fn test_multiple_send() {
    let mut hub = Hub::new();
    let mut viewer = connect(&mut hub);

    hub.publish(render("# Hello world!"));
    assert_eq!(receive(&mut viewer, &mut hub), "<h1>Hello world!</h1>\n");

    hub.publish(render("# Goodbye world!"));
    assert_eq!(receive(&mut viewer, &mut hub), "<h1>Goodbye world!</h1>\n");
}

#[test]
fn viewer_catches_up_then_follows() {
    let mut hub = Hub::new();
    hub.publish("<p>Hello world!</p>".to_owned());

    let mut viewer = connect(&mut hub);
    assert_eq!(receive(&mut viewer, &mut hub), "<p>Hello world!</p>");
    assert_eq!(viewer.on_outbound(&mut hub), Transmission::Wait);

    hub.publish("<h1>Hello world!</h1>".to_owned());
    hub.publish("<h1>Goodbye world!</h1>".to_owned());
    assert_eq!(receive(&mut viewer, &mut hub), "<h1>Hello world!</h1>");
    assert_eq!(receive(&mut viewer, &mut hub), "<h1>Goodbye world!</h1>");
    assert_eq!(viewer.on_outbound(&mut hub), Transmission::Wait);
}

#[test]
fn two_viewers_receive_every_version() {
    let mut hub = Hub::new();
    let mut first = connect(&mut hub);
    hub.publish(render("one"));
    let mut second = connect(&mut hub);
    hub.publish(render("*two*"));

    assert_eq!(receive(&mut first, &mut hub), "<p>one</p>\n");
    assert_eq!(receive(&mut first, &mut hub), "<p><em>two</em></p>\n");
    assert_eq!(receive(&mut second, &mut hub), "<p>one</p>\n");
    assert_eq!(receive(&mut second, &mut hub), "<p><em>two</em></p>\n");
    assert_eq!(first.on_outbound(&mut hub), Transmission::Wait);
    assert_eq!(second.on_outbound(&mut hub), Transmission::Wait);
}
