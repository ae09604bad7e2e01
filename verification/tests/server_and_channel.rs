use catalyst_assets::asset_server::{AssetKind, AssetServer, AssetWorkerMessage};
use catalyst_assets::assets::Handle;
use catalyst_assets::channel::CompletionChannel;
use catalyst_assets::material::{TextureData, TextureFormat};

fn tiny_texture(name: &str) -> TextureData {
    TextureData {
        name: name.to_string(),
        pixels: vec![0, 255, 0, 255],
        width: 1,
        height: 1,
        format: TextureFormat::Rgba8Unorm,
    }
}

#[test]
fn independent_loads_get_distinct_identifiers() {
    let mut server = AssetServer::new();
    let a = server.load_texture("a.png");
    let b = server.load_texture("b.png");
    assert_ne!(a.id, b.id);
    let c = server.load_scene("s.glb");
    let d = server.load_mesh("m.obj");
    assert_ne!(a.id, c.id);
    assert_ne!(a.id, d.id);
    assert_ne!(b.id, c.id);
    assert_ne!(b.id, d.id);
    assert_ne!(c.id, d.id);
}

#[test]
fn load_returns_immediately_with_recorded_dispatch() {
    let mut server = AssetServer::new();
    let h = server.load_texture("textures/wall.png");
    let requests = server.take_requests();
    assert_eq!(requests.len(), 1);
    assert_eq!(requests[0].id, h.id);
    assert!(matches!(requests[0].kind, AssetKind::Texture));
    assert_eq!(requests[0].path, "textures/wall.png");
    // the queue is drained; later loads still cannot collide
    let h2 = server.load_texture("textures/wall.png");
    assert_ne!(h.id, h2.id);
    let requests2 = server.take_requests();
    assert_eq!(requests2.len(), 1);
    assert_eq!(requests2[0].id, h2.id);
}

#[test]
fn repeated_paths_dispatch_fresh_work() {
    // no request de-duplication: each call dispatches independent work
    let mut server = AssetServer::new();
    let a = server.load_mesh("same.obj");
    let b = server.load_mesh("same.obj");
    assert_ne!(a.id, b.id);
    assert_eq!(server.take_requests().len(), 2);
}

#[test]
fn handles_copy_their_identifier() {
    let h: Handle<TextureData> = Handle::from_id(42);
    assert_eq!(h.id, 42);
    let d = h.duplicate();
    assert_eq!(d.id, 42);
    let c = h.clone();
    assert_eq!(c.id, 42);
}

#[test]
fn channel_is_fifo() {
    let mut ch = CompletionChannel::new();
    ch.send(AssetWorkerMessage::TextureLoaded {
        id: 1,
        path: "a.png".to_string(),
        data: tiny_texture("a"),
    });
    ch.send(AssetWorkerMessage::TextureLoaded {
        id: 2,
        path: "b.png".to_string(),
        data: tiny_texture("b"),
    });
    assert_eq!(ch.len(), 2);
    match ch.try_receive() {
        Some(AssetWorkerMessage::TextureLoaded { id, path, .. }) => {
            assert_eq!(id, 1);
            assert_eq!(path, "a.png");
        }
        _ => panic!("expected the first texture message"),
    }
    match ch.try_receive() {
        Some(AssetWorkerMessage::TextureLoaded { id, .. }) => assert_eq!(id, 2),
        _ => panic!("expected the second texture message"),
    }
    assert!(ch.is_empty());
}

#[test]
fn draining_an_empty_channel_is_a_no_op() {
    let mut ch = CompletionChannel::new();
    assert!(ch.try_receive().is_none());
    assert!(ch.try_receive().is_none());
    assert_eq!(ch.len(), 0);
    assert!(ch.is_empty());
}
