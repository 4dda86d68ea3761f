//! Properties of the texture store that span several operations.
use vstd::prelude::*;

use crate::texture_id::TextureId;
use crate::textures::{
    allocated, deleted_by_free, displaced_by_pixels, egui_replaced, first_free, frees_all, freed,
    is_first_free, is_live_user, lemma_first_free, live_gl_textures, lookup, pending_upload,
    registered, slot_index, upload_completed, upload_started, with_pixels, SlotView, StoreView,
};

verus! {

/// Allocating a user texture gives an id that names an empty slot: no texture
/// is bound for it until one is uploaded, and every id of another slot is
/// bound as before.
pub proof fn law_alloc_then_get<T>(v: StoreView<T>, n: u64)
    requires
        v.slots.len() < usize::MAX,
        slot_index(n) != first_free(v.slots),
    ensures
        slot_index(first_free(v.slots) as u64) == first_free(v.slots),
        lookup(allocated(v), TextureId::User(first_free(v.slots) as u64)) is None,
        lookup(allocated(v), TextureId::User(n)) == lookup(v, TextureId::User(n)),
{
    lemma_first_free(v.slots);
}

/// A registered texture is bound for the id that registering returns, and
/// every id of another slot is bound as before.
pub proof fn law_register_then_get<T>(v: StoreView<T>, texture: T, n: u64)
    requires
        v.slots.len() < usize::MAX,
        slot_index(n) != first_free(v.slots),
    ensures
        slot_index(first_free(v.slots) as u64) == first_free(v.slots),
        lookup(registered(v, texture), TextureId::User(first_free(v.slots) as u64)) == Some(
            texture,
        ),
        lookup(registered(v, texture), TextureId::User(n)) == lookup(v, TextureId::User(n)),
{
    lemma_first_free(v.slots);
}

/// New pixels for an allocated user texture unbind its uploaded texture and
/// wait in its slot, exactly as given, for upload.
pub proof fn law_set_then_pending<T>(v: StoreView<T>, n: u64, size: (usize, usize), bytes: Seq<u8>)
    requires
        is_live_user(v, TextureId::User(n)),
    ensures
        lookup(with_pixels(v, TextureId::User(n), size, bytes), TextureId::User(n)) is None,
        pending_upload(with_pixels(v, TextureId::User(n), size, bytes), slot_index(n)) == Some(
            (bytes, size),
        ),
{
}

/// New pixels for an id that names no allocated user texture change nothing
/// and displace nothing.
pub proof fn law_set_on_unknown_id<T>(v: StoreView<T>, id: TextureId, size: (usize, usize), bytes: Seq<u8>)
    requires
        !is_live_user(v, id),
    ensures
        with_pixels(v, id, size, bytes) == v,
        displaced_by_pixels(v, id) is None,
{
}

/// Uploading the pending data of a slot and installing the result binds that
/// texture for the slot's id, and leaves nothing pending there.
pub proof fn law_upload_then_get<T>(v: StoreView<T>, i: int, texture: T)
    requires
        v.slots.len() <= usize::MAX,
        pending_upload(v, i) is Some,
    ensures
        lookup(upload_completed(upload_started(v, i), i, texture), TextureId::User(i as u64))
            == Some(texture),
        pending_upload(upload_completed(upload_started(v, i), i, texture), i) is None,
{
    assert(slot_index(i as u64) == i);
}

/// Freeing a user id that names a slot unbinds every user texture, and the
/// next allocation takes the first slot.
pub proof fn law_free_clears_all<T>(v: StoreView<T>, id: TextureId, n: u64)
    requires
        frees_all(v, id),
    ensures
        lookup(freed(v, id), TextureId::User(n)) is None,
        first_free(freed(v, id).slots) == 0,
{
    let s = freed(v, id).slots;
    assert(is_first_free(s, 0));
    lemma_first_free(s);
    if first_free(s) > 0 {
        assert(s[0] is Some);
    }
}

/// Freeing hands back every uploaded user texture for deletion, and nothing
/// else: no uploaded texture is forgotten.
pub proof fn law_free_deletes_every_upload<T>(v: StoreView<T>, id: TextureId, i: int)
    requires
        frees_all(v, id),
        0 <= i < v.slots.len(),
        v.slots[i] is Some,
        v.slots[i].unwrap().gl_texture is Some,
    ensures
        deleted_by_free(v, id).contains(v.slots[i].unwrap().gl_texture.unwrap()),
        forall|t: T| #[trigger]
            deleted_by_free(v, id).contains(t) ==> exists|j: int|
                0 <= j < v.slots.len() && v.slots[j] is Some && v.slots[j].unwrap().gl_texture
                    == Some(t),
{
    lemma_live_gl_textures(v.slots, i);
}

/// The uploaded textures of the slots, in slot order, hold each uploaded
/// texture and only those.
pub proof fn lemma_live_gl_textures<T>(slots: Seq<Option<SlotView<T>>>, i: int)
    requires
        0 <= i < slots.len(),
        slots[i] is Some,
        slots[i].unwrap().gl_texture is Some,
    ensures
        live_gl_textures(slots).contains(slots[i].unwrap().gl_texture.unwrap()),
        forall|t: T| #[trigger]
            live_gl_textures(slots).contains(t) ==> exists|j: int|
                0 <= j < slots.len() && slots[j] is Some && slots[j].unwrap().gl_texture == Some(
                    t,
                ),
    decreases slots.len(),
{
    let prefix = slots.drop_last();
    let last_part = match slots.last() {
        Some(s) => match s.gl_texture {
            Some(t) => seq![t],
            None => Seq::<T>::empty(),
        },
        None => Seq::<T>::empty(),
    };
    assert(live_gl_textures(slots) == live_gl_textures(prefix) + last_part);
    if i < slots.len() - 1 {
        assert(prefix[i] == slots[i]);
        lemma_live_gl_textures(prefix, i);
        let t = slots[i].unwrap().gl_texture.unwrap();
        let k = choose|k: int| 0 <= k < live_gl_textures(prefix).len() && live_gl_textures(prefix)[k] == t;
        assert((live_gl_textures(prefix) + last_part)[k] == t);
    } else {
        let t = slots[i].unwrap().gl_texture.unwrap();
        assert(last_part == seq![t]);
        assert((live_gl_textures(prefix) + last_part)[live_gl_textures(prefix).len() as int] == t);
    }
    lemma_live_gl_textures_sound(slots);
}

/// Each texture in the uploaded textures of the slots is the uploaded texture
/// of some slot.
pub proof fn lemma_live_gl_textures_sound<T>(slots: Seq<Option<SlotView<T>>>)
    ensures
        forall|t: T| #[trigger]
            live_gl_textures(slots).contains(t) ==> exists|j: int|
                0 <= j < slots.len() && slots[j] is Some && slots[j].unwrap().gl_texture == Some(
                    t,
                ),
    decreases slots.len(),
{
    if slots.len() > 0 {
        let prefix = slots.drop_last();
        lemma_live_gl_textures_sound(prefix);
        let last_part = match slots.last() {
            Some(s) => match s.gl_texture {
                Some(t) => seq![t],
                None => Seq::<T>::empty(),
            },
            None => Seq::<T>::empty(),
        };
        assert(live_gl_textures(slots) == live_gl_textures(prefix) + last_part);
        assert forall|t: T| #[trigger] live_gl_textures(slots).contains(t) implies exists|j: int|
            0 <= j < slots.len() && slots[j] is Some && slots[j].unwrap().gl_texture == Some(t) by {
            let whole = live_gl_textures(slots);
            let k = choose|k: int| 0 <= k < whole.len() && whole[k] == t;
            if k < live_gl_textures(prefix).len() {
                assert(live_gl_textures(prefix)[k] == t);
                assert(live_gl_textures(prefix).contains(t));
                let j = choose|j: int|
                    0 <= j < prefix.len() && prefix[j] is Some && prefix[j].unwrap().gl_texture
                        == Some(t);
                assert(slots[j] == prefix[j]);
            } else {
                assert(last_part[k - live_gl_textures(prefix).len()] == t);
                assert(slots[slots.len() - 1] == slots.last());
            }
        }
    }
}

/// One step of the upload pass: slot `i`, if it waits, is uploaded as
/// `texture` and installed.
pub open spec fn upload_step<T>(v: StoreView<T>, i: int, texture: T) -> StoreView<T> {
    if pending_upload(v, i) is Some {
        upload_completed(upload_started(v, i), i, texture)
    } else {
        v
    }
}

/// The upload pass over slots `0..k`, slot `i` receiving `textures[i]` if it
/// waits.
pub open spec fn upload_pass<T>(v: StoreView<T>, textures: Seq<T>, k: int) -> StoreView<T>
    decreases k,
{
    if k <= 0 {
        v
    } else {
        upload_step(upload_pass(v, textures, k - 1), k - 1, textures[k - 1])
    }
}

/// One upload pass over every slot leaves nothing waiting for upload: each
/// slot that waited has its texture bound, every other slot is as it was, and
/// the same slots stay allocated.
pub proof fn law_upload_pass_leaves_nothing_pending<T>(v: StoreView<T>, textures: Seq<T>)
    requires
        textures.len() == v.slots.len(),
    ensures
        upload_pass(v, textures, v.slots.len() as int).slots.len() == v.slots.len(),
        forall|i: int|
            0 <= i < v.slots.len() ==> #[trigger] pending_upload(
                upload_pass(v, textures, v.slots.len() as int),
                i,
            ) is None,
        forall|i: int|
            0 <= i < v.slots.len() && pending_upload(v, i) is Some ==> (#[trigger] upload_pass(
                v,
                textures,
                v.slots.len() as int,
            ).slots[i]) is Some && upload_pass(v, textures, v.slots.len() as int).slots[i].unwrap().gl_texture
                == Some(textures[i]),
        forall|i: int|
            0 <= i < v.slots.len() && pending_upload(v, i) is None ==> #[trigger] upload_pass(
                v,
                textures,
                v.slots.len() as int,
            ).slots[i] == v.slots[i],
        upload_pass(v, textures, v.slots.len() as int).egui_texture == v.egui_texture,
        upload_pass(v, textures, v.slots.len() as int).egui_version == v.egui_version,
{
    lemma_upload_pass(v, textures, v.slots.len() as int);
}

/// After the pass over slots `0..k`, the first `k` slots wait for nothing,
/// and the rest are untouched.
proof fn lemma_upload_pass<T>(v: StoreView<T>, textures: Seq<T>, k: int)
    requires
        textures.len() == v.slots.len(),
        0 <= k <= v.slots.len(),
    ensures
        upload_pass(v, textures, k).slots.len() == v.slots.len(),
        upload_pass(v, textures, k).egui_texture == v.egui_texture,
        upload_pass(v, textures, k).egui_version == v.egui_version,
        forall|i: int| 0 <= i < k ==> #[trigger] pending_upload(upload_pass(v, textures, k), i) is None,
        forall|i: int|
            0 <= i < k && pending_upload(v, i) is Some ==> (#[trigger] upload_pass(
                v,
                textures,
                k,
            ).slots[i]) is Some && upload_pass(v, textures, k).slots[i].unwrap().gl_texture == Some(
                textures[i],
            ),
        forall|i: int|
            (0 <= i < v.slots.len() && !(0 <= i < k && pending_upload(v, i) is Some))
                ==> #[trigger] upload_pass(v, textures, k).slots[i] == v.slots[i],
    decreases k,
{
    if k > 0 {
        lemma_upload_pass(v, textures, k - 1);
        let before = upload_pass(v, textures, k - 1);
        let after = upload_pass(v, textures, k);
        assert(after == upload_step(before, k - 1, textures[k - 1]));
        assert(before.slots[k - 1] == v.slots[k - 1]);
        assert forall|i: int| 0 <= i < k implies #[trigger] pending_upload(after, i) is None by {
            if i < k - 1 {
                assert(after.slots[i] == before.slots[i]);
                assert(pending_upload(before, i) is None);
            }
        }
        assert forall|i: int|
            0 <= i < k && pending_upload(v, i) is Some implies (#[trigger] after.slots[i]) is Some
                && after.slots[i].unwrap().gl_texture == Some(textures[i]) by {
            if i < k - 1 {
                assert(after.slots[i] == before.slots[i]);
            }
        }
        assert forall|i: int|
            (0 <= i < v.slots.len() && !(0 <= i < k && pending_upload(v, i) is Some))
                implies #[trigger] after.slots[i] == v.slots[i] by {
            if i != k - 1 {
                assert(after.slots[i] == before.slots[i]);
            } else {
                assert(pending_upload(before, i) == pending_upload(v, i));
            }
        }
    }
}

/// A live user id stays live through allocation, registration, new pixels
/// and uploads; only freeing releases it.
pub proof fn law_live_ids_stay_live<T>(
    v: StoreView<T>,
    n: u64,
    id: TextureId,
    size: (usize, usize),
    bytes: Seq<u8>,
    texture: T,
    i: int,
)
    requires
        is_live_user(v, TextureId::User(n)),
    ensures
        is_live_user(allocated(v), TextureId::User(n)),
        is_live_user(registered(v, texture), TextureId::User(n)),
        is_live_user(with_pixels(v, id, size, bytes), TextureId::User(n)),
        is_live_user(upload_started(v, i), TextureId::User(n)),
        is_live_user(upload_completed(v, i, texture), TextureId::User(n)),
{
    lemma_first_free(v.slots);
}

/// Allocation and registration never hand out the id of a live user texture:
/// two live ids never name the same slot.
pub proof fn law_alloc_avoids_live_ids<T>(v: StoreView<T>, n: u64)
    requires
        is_live_user(v, TextureId::User(n)),
    ensures
        slot_index(n) != first_free(v.slots),
{
    lemma_first_free(v.slots);
}

/// How often `t` occurs in `s`.
pub open spec fn occurrences<T>(s: Seq<T>, t: T) -> nat
    decreases s.len(),
{
    if s.len() == 0 {
        0
    } else {
        occurrences(s.drop_last(), t) + if s.last() == t {
            1nat
        } else {
            0nat
        }
    }
}

/// How many allocated slots hold `t` as their uploaded texture.
pub open spec fn slots_holding<T>(slots: Seq<Option<SlotView<T>>>, t: T) -> nat
    decreases slots.len(),
{
    if slots.len() == 0 {
        0
    } else {
        slots_holding(slots.drop_last(), t) + if slots.last() matches Some(s) && s.gl_texture
            == Some(t) {
            1nat
        } else {
            0nat
        }
    }
}

proof fn lemma_occurrences_append<T>(a: Seq<T>, b: Seq<T>, t: T)
    ensures
        occurrences(a + b, t) == occurrences(a, t) + occurrences(b, t),
    decreases b.len(),
{
    if b.len() > 0 {
        lemma_occurrences_append(a, b.drop_last(), t);
        assert((a + b).drop_last() =~= a + b.drop_last());
    } else {
        assert(a + b =~= a);
    }
}

/// Each uploaded texture occurs in the uploaded textures of the slots once
/// for each slot that holds it.
pub proof fn lemma_live_gl_texture_occurrences<T>(slots: Seq<Option<SlotView<T>>>, t: T)
    ensures
        occurrences(live_gl_textures(slots), t) == slots_holding(slots, t),
    decreases slots.len(),
{
    if slots.len() > 0 {
        let prefix = slots.drop_last();
        lemma_live_gl_texture_occurrences(prefix, t);
        let last_part = match slots.last() {
            Some(s) => match s.gl_texture {
                Some(u) => seq![u],
                None => Seq::<T>::empty(),
            },
            None => Seq::<T>::empty(),
        };
        assert(live_gl_textures(slots) == live_gl_textures(prefix) + last_part);
        lemma_occurrences_append(live_gl_textures(prefix), last_part, t);
        if last_part.len() == 1 {
            assert(last_part.drop_last() =~= Seq::<T>::empty());
            assert(occurrences(Seq::<T>::empty(), t) == 0);
            assert(occurrences(last_part, t) == if last_part.last() == t {
                1nat
            } else {
                0nat
            });
        } else {
            assert(occurrences(last_part, t) == 0);
        }
    }
}

/// Freeing hands each uploaded texture back for deletion exactly once for
/// each slot that holds it: a texture held by one slot is deleted once.
pub proof fn law_free_deletes_each_upload_once<T>(v: StoreView<T>, id: TextureId, t: T)
    requires
        frees_all(v, id),
    ensures
        occurrences(deleted_by_free(v, id), t) == slots_holding(v.slots, t),
{
    lemma_live_gl_texture_occurrences(v.slots, t);
}

/// An operation on user textures other than freeing.
pub enum UserTextureOp<T> {
    Alloc,
    Register(T),
    SetPixels(TextureId, (usize, usize), Seq<u8>),
    TakePendingUpload(usize),
    FinishUpload(usize, T),
}

/// The store after one operation on user textures.
pub open spec fn apply_op<T>(v: StoreView<T>, op: UserTextureOp<T>) -> StoreView<T> {
    match op {
        UserTextureOp::Alloc => allocated(v),
        UserTextureOp::Register(t) => registered(v, t),
        UserTextureOp::SetPixels(id, size, bytes) => with_pixels(v, id, size, bytes),
        UserTextureOp::TakePendingUpload(i) => upload_started(v, i as int),
        UserTextureOp::FinishUpload(i, t) => upload_completed(v, i as int, t),
    }
}

/// The store after a run of operations on user textures, in order.
pub open spec fn apply_ops<T>(v: StoreView<T>, ops: Seq<UserTextureOp<T>>) -> StoreView<T>
    decreases ops.len(),
{
    if ops.len() == 0 {
        v
    } else {
        apply_op(apply_ops(v, ops.drop_last()), ops.last())
    }
}

/// One operation other than freeing keeps a live id live.
proof fn lemma_op_keeps_live<T>(v: StoreView<T>, n: u64, op: UserTextureOp<T>)
    requires
        is_live_user(v, TextureId::User(n)),
    ensures
        is_live_user(apply_op(v, op), TextureId::User(n)),
{
    lemma_first_free(v.slots);
}

/// Two live user ids never alias: an id that is live stays live through any
/// run of operations without a free, and no allocation or registration
/// after that run hands out its slot again.
pub proof fn law_ids_never_alias_without_free<T>(
    v: StoreView<T>,
    n: u64,
    ops: Seq<UserTextureOp<T>>,
)
    requires
        is_live_user(v, TextureId::User(n)),
    ensures
        is_live_user(apply_ops(v, ops), TextureId::User(n)),
        slot_index(n) != first_free(apply_ops(v, ops).slots),
    decreases ops.len(),
{
    if ops.len() > 0 {
        law_ids_never_alias_without_free(v, n, ops.drop_last());
        lemma_op_keeps_live(apply_ops(v, ops.drop_last()), n, ops.last());
    }
    law_alloc_avoids_live_ids(apply_ops(v, ops), n);
}

/// New pixels for an allocated user texture hand back exactly the texture
/// that was bound for that same id before, and leave it unbound; the slots of
/// other ids keep their textures.
pub proof fn law_set_displaces_the_bound_texture<T>(
    v: StoreView<T>,
    n: u64,
    size: (usize, usize),
    bytes: Seq<u8>,
    m: u64,
)
    requires
        is_live_user(v, TextureId::User(n)),
        slot_index(m) != slot_index(n),
    ensures
        displaced_by_pixels(v, TextureId::User(n)) == lookup(v, TextureId::User(n)),
        lookup(with_pixels(v, TextureId::User(n), size, bytes), TextureId::User(n)) is None,
        lookup(with_pixels(v, TextureId::User(n), size, bytes), TextureId::User(m)) == lookup(
            v,
            TextureId::User(m),
        ),
{
}

/// Freeing a user id below the number of slots frees every slot: the table
/// keeps its length, no user id stays allocated, and the font texture stays.
pub proof fn law_free_frees_every_slot<T>(v: StoreView<T>, id: TextureId, m: u64)
    requires
        frees_all(v, id),
    ensures
        freed(v, id).slots.len() == v.slots.len(),
        forall|i: int| 0 <= i < v.slots.len() ==> #[trigger] freed(v, id).slots[i] is None,
        !is_live_user(freed(v, id), TextureId::User(m)),
        lookup(freed(v, id), TextureId::Egui) == lookup(v, TextureId::Egui),
{
}

/// Freeing an id that names no slot, or the font texture's id, changes
/// nothing and deletes nothing.
pub proof fn law_free_of_other_ids<T>(v: StoreView<T>, id: TextureId)
    requires
        !frees_all(v, id),
    ensures
        freed(v, id) == v,
        deleted_by_free(v, id).len() == 0,
{
}

/// Installing a new font texture binds it for the egui id, makes its version
/// the current one (so it is not uploaded again), and leaves user textures as
/// they were.
pub proof fn law_replace_egui_then_get<T>(v: StoreView<T>, texture: T, version: u64, n: u64)
    ensures
        lookup(egui_replaced(v, texture, version), TextureId::Egui) == Some(texture),
        egui_replaced(v, texture, version).egui_version == Some(version),
        lookup(egui_replaced(v, texture, version), TextureId::User(n)) == lookup(
            v,
            TextureId::User(n),
        ),
{
}

/// No operation on user textures changes which font texture is bound or
/// which font version is current.
pub proof fn law_user_operations_keep_font_texture<T>(
    v: StoreView<T>,
    id: TextureId,
    size: (usize, usize),
    bytes: Seq<u8>,
    texture: T,
    i: int,
)
    ensures
        allocated(v).egui_texture == v.egui_texture && allocated(v).egui_version == v.egui_version,
        registered(v, texture).egui_texture == v.egui_texture && registered(v, texture).egui_version
            == v.egui_version,
        with_pixels(v, id, size, bytes).egui_texture == v.egui_texture && with_pixels(
            v,
            id,
            size,
            bytes,
        ).egui_version == v.egui_version,
        freed(v, id).egui_texture == v.egui_texture && freed(v, id).egui_version == v.egui_version,
        upload_started(v, i).egui_texture == v.egui_texture && upload_started(v, i).egui_version
            == v.egui_version,
        upload_completed(v, i, texture).egui_texture == v.egui_texture && upload_completed(
            v,
            i,
            texture,
        ).egui_version == v.egui_version,
{
}

} // verus!
