use glow_painter::texture_id::TextureId;
use glow_painter::textures::TextureStore;

fn rgba(n: u8) -> [u8; 4] {
    [n, n + 1, n + 2, n + 3]
}

#[test]
fn new_store_binds_nothing() {
    let store: TextureStore<u32> = TextureStore::new();
    assert_eq!(store.user_slot_count(), 0);
    assert_eq!(store.get_texture(TextureId::Egui), None);
    assert_eq!(store.get_texture(TextureId::User(0)), None);
}

#[test]
fn alloc_hands_out_consecutive_ids() {
    let mut store: TextureStore<u32> = TextureStore::new();
    assert_eq!(store.alloc_user_texture(), TextureId::User(0));
    assert_eq!(store.alloc_user_texture(), TextureId::User(1));
    assert_eq!(store.alloc_user_texture(), TextureId::User(2));
    assert_eq!(store.user_slot_count(), 3);
    assert_eq!(store.get_texture(TextureId::User(1)), None);
}

#[test]
fn free_frees_every_slot_and_alloc_reuses_the_first() {
    let mut store: TextureStore<u32> = TextureStore::new();
    store.alloc_user_texture();
    let id = store.register_glow_texture(40);
    store.register_glow_texture(41);
    assert_eq!(id, TextureId::User(1));
    let deleted = store.free_user_texture(TextureId::User(0));
    assert_eq!(deleted, vec![40, 41]);
    assert_eq!(store.user_slot_count(), 3);
    assert_eq!(store.get_texture(TextureId::User(1)), None);
    assert_eq!(store.get_texture(TextureId::User(2)), None);
    assert_eq!(store.alloc_user_texture(), TextureId::User(0));
    assert_eq!(store.alloc_user_texture(), TextureId::User(1));
}

#[test]
fn free_of_unknown_id_changes_nothing() {
    let mut store: TextureStore<u32> = TextureStore::new();
    store.register_glow_texture(7);
    assert!(store.free_user_texture(TextureId::User(5)).is_empty());
    assert!(store.free_user_texture(TextureId::Egui).is_empty());
    assert_eq!(store.get_texture(TextureId::User(0)), Some(7));
}

#[test]
fn register_binds_the_texture() {
    let mut store: TextureStore<u32> = TextureStore::new();
    let id = store.register_glow_texture(99);
    assert_eq!(id, TextureId::User(0));
    assert_eq!(store.get_texture(id), Some(99));
    assert!(store.take_pending_upload(0).is_none());
}

#[test]
fn set_then_upload_then_get() {
    let mut store: TextureStore<u32> = TextureStore::new();
    let id = store.alloc_user_texture();
    let displaced = store.set_user_texture(id, (2, 1), &[rgba(10), rgba(20)]);
    assert_eq!(displaced, None);
    assert_eq!(store.get_texture(id), None);
    let upload = store.take_pending_upload(0).expect("pixels are pending");
    assert_eq!(upload.pixels, vec![10, 11, 12, 13, 20, 21, 22, 23]);
    assert_eq!((upload.width, upload.height), (2, 1));
    assert!(store.take_pending_upload(0).is_some_and(|u| u.pixels.is_empty() && u.width == 0));
    store.finish_upload(0, 5);
    assert_eq!(store.get_texture(id), Some(5));
    assert!(store.take_pending_upload(0).is_none());
}

#[test]
fn set_replaces_an_uploaded_texture() {
    let mut store: TextureStore<u32> = TextureStore::new();
    let id = store.register_glow_texture(3);
    let displaced = store.set_user_texture(id, (1, 1), &[rgba(1)]);
    assert_eq!(displaced, Some(3));
    assert_eq!(store.get_texture(id), None);
    let upload = store.take_pending_upload(0).unwrap();
    assert_eq!(upload.pixels, vec![1, 2, 3, 4]);
}

#[test]
fn set_on_free_or_unknown_slot_does_nothing() {
    let mut store: TextureStore<u32> = TextureStore::new();
    assert_eq!(store.set_user_texture(TextureId::User(0), (1, 1), &[rgba(1)]), None);
    assert_eq!(store.user_slot_count(), 0);
    store.alloc_user_texture();
    store.free_user_texture(TextureId::User(0));
    assert_eq!(store.set_user_texture(TextureId::User(0), (1, 1), &[rgba(1)]), None);
    assert!(store.take_pending_upload(0).is_none());
    assert_eq!(store.set_user_texture(TextureId::Egui, (1, 1), &[rgba(1)]), None);
}

#[test]
fn fresh_slot_hands_out_an_empty_upload() {
    let mut store: TextureStore<u32> = TextureStore::new();
    store.alloc_user_texture();
    let upload = store.take_pending_upload(0).unwrap();
    assert!(upload.pixels.is_empty());
    assert_eq!((upload.width, upload.height), (0, 0));
    assert!(store.take_pending_upload(3).is_none());
}

#[test]
fn user_gl_textures_in_slot_order() {
    let mut store: TextureStore<u32> = TextureStore::new();
    store.register_glow_texture(8);
    store.alloc_user_texture();
    store.register_glow_texture(6);
    assert_eq!(store.user_gl_textures(), vec![8, 6]);
    assert_eq!(store.user_slot_count(), 3);
}

#[test]
fn egui_texture_uploads_once_per_version() {
    let mut store: TextureStore<u32> = TextureStore::new();
    let bytes = store.egui_texture_upload(7, &[0, 255]).expect("nothing uploaded yet");
    assert_eq!(bytes, vec![0, 0, 0, 0, 255, 255, 255, 255]);
    assert_eq!(store.replace_egui_texture(1, 7), None);
    assert_eq!(store.get_texture(TextureId::Egui), Some(1));
    assert!(store.egui_texture_upload(7, &[0, 255]).is_none());
    assert!(store.egui_texture_upload(8, &[]).is_some());
    assert_eq!(store.replace_egui_texture(2, 8), Some(1));
    assert_eq!(store.get_texture(TextureId::Egui), Some(2));
}

#[test]
fn user_operations_keep_the_font_texture() {
    let mut store: TextureStore<u32> = TextureStore::new();
    store.replace_egui_texture(10, 1);
    store.alloc_user_texture();
    store.set_user_texture(TextureId::User(0), (1, 1), &[rgba(0)]);
    store.take_pending_upload(0);
    store.finish_upload(0, 11);
    store.free_user_texture(TextureId::User(0));
    assert_eq!(store.get_texture(TextureId::Egui), Some(10));
    assert!(store.egui_texture_upload(1, &[1]).is_none());
}

#[test]
fn upload_pass_leaves_nothing_pending() {
    let mut store: TextureStore<u32> = TextureStore::new();
    let a = store.alloc_user_texture();
    let b = store.register_glow_texture(50);
    let c = store.alloc_user_texture();
    store.set_user_texture(a, (1, 1), &[rgba(1)]);
    store.set_user_texture(c, (1, 2), &[rgba(2), rgba(3)]);
    for index in 0..store.user_slot_count() {
        if let Some(upload) = store.take_pending_upload(index) {
            assert!(upload.width >= 1);
            store.finish_upload(index, 60 + index as u32);
        }
    }
    for index in 0..store.user_slot_count() {
        assert!(store.take_pending_upload(index).is_none());
    }
    assert_eq!(store.get_texture(a), Some(60));
    assert_eq!(store.get_texture(b), Some(50));
    assert_eq!(store.get_texture(c), Some(62));
}

#[test]
fn free_deletes_a_texture_once_per_slot() {
    let mut store: TextureStore<u32> = TextureStore::new();
    store.register_glow_texture(9);
    store.register_glow_texture(9);
    store.register_glow_texture(4);
    assert_eq!(store.free_user_texture(TextureId::User(2)), vec![9, 9, 4]);
}

#[test]
fn live_ids_never_alias() {
    let mut store: TextureStore<u32> = TextureStore::new();
    let a = store.alloc_user_texture();
    let b = store.register_glow_texture(1);
    store.set_user_texture(a, (1, 1), &[rgba(0)]);
    let c = store.alloc_user_texture();
    assert_ne!(a, b);
    assert_ne!(a, c);
    assert_ne!(b, c);
}

#[test]
fn same_font_version_uploads_nothing_whatever_the_pixels() {
    let mut store: TextureStore<u32> = TextureStore::new();
    assert!(!store.egui_texture_is_current(3));
    store.replace_egui_texture(1, 3);
    assert!(store.egui_texture_is_current(3));
    assert!(store.egui_texture_upload(3, &[1, 2, 3]).is_none());
    let bytes = store.egui_texture_upload(4, &[10, 20]).unwrap();
    assert_eq!(bytes.len(), 8);
    assert_eq!((bytes[3], bytes[7]), (10, 20));
}
