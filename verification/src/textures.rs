//! The painter's textures: the egui font texture and the table of user
//! textures, with the decisions on what is uploaded, bound and deleted.
//!
//! `T` is the GPU's handle of an uploaded texture. The store never makes a GPU
//! call: it hands back the handles that the caller must delete and the pixel
//! data that the caller must upload.
use vstd::prelude::*;

use crate::pixels::{carries_alpha, font_texture_rgba, is_font_texture, flatten_rgba, pixel_bytes, rgba_views};
use crate::texture_id::TextureId;

verus! {

/// What the store knows of one allocated user texture.
pub struct SlotView<T> {
    /// Pixel data still to be uploaded (RGBA bytes).
    pub pixels: Seq<u8>,
    /// Width and height of the pending pixel data; `(0, 0)` when there is none.
    pub size: (usize, usize),
    /// The uploaded texture, once there is one.
    pub gl_texture: Option<T>,
}

/// The abstract state of a [`TextureStore`].
pub struct StoreView<T> {
    /// The uploaded egui font texture.
    pub egui_texture: Option<T>,
    /// The version of the font texture that was uploaded last.
    pub egui_version: Option<u64>,
    /// The user texture slots; `None` is a free slot.
    pub slots: Seq<Option<SlotView<T>>>,
}

/// A user texture slot that holds nothing yet.
pub open spec fn fresh_slot<T>() -> SlotView<T> {
    SlotView { pixels: Seq::empty(), size: (0, 0), gl_texture: None }
}

/// The slot that a user texture id names.
pub open spec fn slot_index(id: u64) -> int {
    (id as usize) as int
}

/// Pending pixel data agrees with its size, four bytes per pixel.
pub open spec fn slot_wf<T>(s: SlotView<T>) -> bool {
    s.pixels.len() == s.size.0 * s.size.1 * 4
}

/// Every allocated slot is well formed.
pub open spec fn slots_wf<T>(slots: Seq<Option<SlotView<T>>>) -> bool {
    forall|i: int|
        0 <= i < slots.len() ==> match #[trigger] slots[i] {
            Some(s) => slot_wf(s),
            None => true,
        }
}

/// The texture that is bound for a mesh with the given texture id.
pub open spec fn lookup<T>(v: StoreView<T>, id: TextureId) -> Option<T> {
    match id {
        TextureId::Egui => v.egui_texture,
        TextureId::User(n) => {
            let i = slot_index(n);
            if 0 <= i < v.slots.len() && v.slots[i] is Some {
                v.slots[i].unwrap().gl_texture
            } else {
                None
            }
        },
    }
}

/// `i` is the lowest free slot, or the number of slots where none is free.
pub open spec fn is_first_free<T>(slots: Seq<Option<SlotView<T>>>, i: int) -> bool {
    &&& 0 <= i <= slots.len()
    &&& forall|j: int| 0 <= j < i ==> #[trigger] slots[j] is Some
    &&& i < slots.len() ==> slots[i] is None
}

/// The slot that the next allocation takes.
pub open spec fn first_free<T>(slots: Seq<Option<SlotView<T>>>) -> int {
    choose|i: int| is_first_free(slots, i)
}

/// The slots with slot `i` set to `s`, where `i` is a slot or one past the last.
pub open spec fn put_slot<T>(slots: Seq<Option<SlotView<T>>>, i: int, s: SlotView<T>) -> Seq<
    Option<SlotView<T>>,
> {
    if i < slots.len() {
        slots.update(i, Some(s))
    } else {
        slots.push(Some(s))
    }
}

/// The store with its user slots replaced.
pub open spec fn with_slots<T>(v: StoreView<T>, slots: Seq<Option<SlotView<T>>>) -> StoreView<T> {
    StoreView { egui_texture: v.egui_texture, egui_version: v.egui_version, slots }
}

/// The store after a user texture is allocated.
pub open spec fn allocated<T>(v: StoreView<T>) -> StoreView<T> {
    with_slots(v, put_slot(v.slots, first_free(v.slots), fresh_slot()))
}

/// The slot of a texture that was uploaded elsewhere and registered.
pub open spec fn registered_slot<T>(texture: T) -> SlotView<T> {
    SlotView { pixels: Seq::empty(), size: (0, 0), gl_texture: Some(texture) }
}

/// The store after an uploaded texture is registered.
pub open spec fn registered<T>(v: StoreView<T>, texture: T) -> StoreView<T> {
    with_slots(v, put_slot(v.slots, first_free(v.slots), registered_slot(texture)))
}

/// The id names an allocated user slot.
pub open spec fn is_live_user<T>(v: StoreView<T>, id: TextureId) -> bool {
    match id {
        TextureId::Egui => false,
        TextureId::User(n) => 0 <= slot_index(n) < v.slots.len() && v.slots[slot_index(n)] is Some,
    }
}

/// The store after new pixels were given for a user texture.
pub open spec fn with_pixels<T>(
    v: StoreView<T>,
    id: TextureId,
    size: (usize, usize),
    bytes: Seq<u8>,
) -> StoreView<T> {
    match id {
        TextureId::User(n) if is_live_user(v, id) => with_slots(
            v,
            v.slots.update(
                slot_index(n),
                Some(SlotView { pixels: bytes, size, gl_texture: None }),
            ),
        ),
        _ => v,
    }
}

/// The uploaded texture that new pixels for `id` make obsolete.
pub open spec fn displaced_by_pixels<T>(v: StoreView<T>, id: TextureId) -> Option<T> {
    if is_live_user(v, id) {
        lookup(v, id)
    } else {
        None
    }
}

/// The uploaded textures of the allocated slots, in slot order.
pub open spec fn live_gl_textures<T>(slots: Seq<Option<SlotView<T>>>) -> Seq<T>
    decreases slots.len(),
{
    if slots.len() == 0 {
        Seq::empty()
    } else {
        live_gl_textures(slots.drop_last()) + match slots.last() {
            Some(s) => match s.gl_texture {
                Some(t) => seq![t],
                None => Seq::empty(),
            },
            None => Seq::empty(),
        }
    }
}

/// Freeing a user id that names a slot (free or not) frees every slot.
pub open spec fn frees_all<T>(v: StoreView<T>, id: TextureId) -> bool {
    match id {
        TextureId::Egui => false,
        TextureId::User(n) => 0 <= slot_index(n) < v.slots.len(),
    }
}

/// The store after `free_user_texture(id)`.
pub open spec fn freed<T>(v: StoreView<T>, id: TextureId) -> StoreView<T> {
    if frees_all(v, id) {
        with_slots(v, Seq::new(v.slots.len(), |i: int| None))
    } else {
        v
    }
}

/// The uploaded textures that `free_user_texture(id)` gives back for deletion.
pub open spec fn deleted_by_free<T>(v: StoreView<T>, id: TextureId) -> Seq<T> {
    if frees_all(v, id) {
        live_gl_textures(v.slots)
    } else {
        Seq::empty()
    }
}

/// The pixel data and size that slot `i` waits to upload, if it waits.
pub open spec fn pending_upload<T>(v: StoreView<T>, i: int) -> Option<(Seq<u8>, (usize, usize))> {
    if 0 <= i < v.slots.len() && v.slots[i] is Some && v.slots[i].unwrap().gl_texture is None {
        Some((v.slots[i].unwrap().pixels, v.slots[i].unwrap().size))
    } else {
        None
    }
}

/// The store once the pending data of slot `i` has been handed out.
pub open spec fn upload_started<T>(v: StoreView<T>, i: int) -> StoreView<T> {
    if pending_upload(v, i) is Some {
        with_slots(v, v.slots.update(i, Some(fresh_slot())))
    } else {
        v
    }
}

/// The store once slot `i` has received its uploaded texture.
pub open spec fn upload_completed<T>(v: StoreView<T>, i: int, texture: T) -> StoreView<T> {
    if 0 <= i < v.slots.len() && v.slots[i] is Some {
        let s = v.slots[i].unwrap();
        with_slots(
            v,
            v.slots.update(
                i,
                Some(SlotView { pixels: s.pixels, size: s.size, gl_texture: Some(texture) }),
            ),
        )
    } else {
        v
    }
}

/// The store once a new egui font texture of the given version is uploaded.
pub open spec fn egui_replaced<T>(v: StoreView<T>, texture: T, version: u64) -> StoreView<T> {
    StoreView { egui_texture: Some(texture), egui_version: Some(version), slots: v.slots }
}

/// A user texture: pixel data waiting for upload and the uploaded texture.
pub struct UserTexture<T> {
    pixels: Vec<u8>,
    pixels_res: (usize, usize),
    gl_texture: Option<T>,
}

impl<T> UserTexture<T> {
    pub closed spec fn view(&self) -> SlotView<T> {
        SlotView { pixels: self.pixels@, size: self.pixels_res, gl_texture: self.gl_texture }
    }
}

/// The abstract view of one slot of the table.
pub open spec fn slot_view<T>(o: Option<UserTexture<T>>) -> Option<SlotView<T>> {
    match o {
        Some(u) => Some(u.view()),
        None => None,
    }
}

/// Pixel data that a user slot hands out for upload.
pub struct PendingUpload {
    /// RGBA bytes, row by row.
    pub pixels: Vec<u8>,
    pub width: usize,
    pub height: usize,
}

/// The textures of a painter.
pub struct TextureStore<T> {
    egui_texture: Option<T>,
    egui_texture_version: Option<u64>,
    /// `None` is an unallocated (freed) slot.
    user_textures: Vec<Option<UserTexture<T>>>,
}

impl<T> View for TextureStore<T> {
    type V = StoreView<T>;

    closed spec fn view(&self) -> StoreView<T> {
        StoreView {
            egui_texture: self.egui_texture,
            egui_version: self.egui_texture_version,
            slots: self.user_textures@.map_values(|o: Option<UserTexture<T>>| slot_view(o)),
        }
    }
}

/// There is a first free slot.
pub proof fn lemma_first_free<T>(slots: Seq<Option<SlotView<T>>>)
    ensures
        is_first_free(slots, first_free(slots)),
    decreases slots.len(),
{
    if slots.len() == 0 {
        assert(is_first_free(slots, 0));
    } else {
        let prefix = slots.drop_last();
        lemma_first_free(prefix);
        let i = first_free(prefix);
        assert forall|j: int| 0 <= j < prefix.len() implies #[trigger] slots[j] == prefix[j] by {}
        if i < prefix.len() {
            assert(is_first_free(slots, i));
        } else if slots.last() is None {
            assert(is_first_free(slots, slots.len() - 1));
        } else {
            assert(is_first_free(slots, slots.len() as int));
        }
    }
}

/// Only one slot is the first free one.
proof fn lemma_first_free_unique<T>(slots: Seq<Option<SlotView<T>>>, i: int)
    requires
        is_first_free(slots, i),
    ensures
        first_free(slots) == i,
{
    lemma_first_free(slots);
    let k = first_free(slots);
    if k < i {
        assert(slots[k] is Some);
    } else if i < k {
        assert(slots[i] is Some);
    }
}

impl<T: Copy> TextureStore<T> {
    /// The store's invariant.
    pub open spec fn wf(&self) -> bool {
        &&& slots_wf(self@.slots)
        &&& self@.egui_version is Some ==> self@.egui_texture is Some
    }

    /// A store with no texture.
    pub fn new() -> (store: Self)
        ensures
            store.wf(),
            store@.egui_texture is None,
            store@.egui_version is None,
            store@.slots == Seq::<Option<SlotView<T>>>::empty(),
    {
        let store = TextureStore {
            egui_texture: None,
            egui_texture_version: None,
            user_textures: Vec::new(),
        };
        assert(store@.slots =~= Seq::<Option<SlotView<T>>>::empty());
        store
    }

    /// The number of user texture slots, free or not.
    pub fn user_slot_count(&self) -> (n: usize)
        ensures
            n == self@.slots.len(),
    {
        self.user_textures.len()
    }

    /// The lowest free user slot, or the number of slots when none is free.
    fn first_free_index(&self) -> (i: usize)
        ensures
            is_first_free(self@.slots, i as int),
    {
        let n = self.user_textures.len();
        let mut i: usize = 0;
        while i < n
            invariant
                n == self.user_textures@.len(),
                i <= n,
                forall|j: int| 0 <= j < i ==> #[trigger] self.user_textures@[j] is Some,
            decreases n - i,
        {
            if self.user_textures[i].is_none() {
                assert(self@.slots[i as int] is None);
                return i;
            }
            i = i + 1;
        }
        i
    }

    /// Allocates a user texture with nothing in it, in the lowest free slot
    /// or else in a new slot at the end, and returns its id.
    pub fn alloc_user_texture(&mut self) -> (id: TextureId)
        requires
            old(self).wf(),
            old(self)@.slots.len() < usize::MAX,
        ensures
            final(self).wf(),
            final(self)@ == allocated(old(self)@),
            id == TextureId::User(first_free(old(self)@.slots) as u64),
            id matches TextureId::User(n) && {
                let i = slot_index(n);
                let before = old(self)@.slots;
                let after = final(self)@.slots;
                &&& 0 <= i <= before.len()
                &&& forall|j: int| 0 <= j < i ==> #[trigger] before[j] is Some
                &&& i < before.len() ==> before[i] is None && after.len() == before.len()
                &&& i == before.len() ==> after.len() == before.len() + 1
                &&& after[i] == Some(fresh_slot::<T>())
                &&& forall|j: int| 0 <= j < before.len() && j != i ==> #[trigger] after[j] == before[j]
            },
            slot_index(first_free(old(self)@.slots) as u64) == first_free(old(self)@.slots),
            is_first_free(old(self)@.slots, first_free(old(self)@.slots)),
    {
        let i = self.first_free_index();
        proof {
            lemma_first_free_unique(self@.slots, i as int);
        }
        let fresh = UserTexture { pixels: Vec::new(), pixels_res: (0, 0), gl_texture: None };
        if i < self.user_textures.len() {
            self.user_textures.set(i, Some(fresh));
        } else {
            self.user_textures.push(Some(fresh));
        }
        proof {
            assert(fresh.view() == fresh_slot::<T>());
            assert(self@.slots =~= put_slot(old(self)@.slots, i as int, fresh_slot()));
        }
        TextureId::User(i as u64)
    }

    /// Registers a texture that was uploaded elsewhere: it takes the slot that
    /// `alloc_user_texture` would take, and its id is returned.
    ///
    /// The slot was free, so no earlier texture is displaced.
    pub fn register_glow_texture(&mut self, texture: T) -> (id: TextureId)
        requires
            old(self).wf(),
            old(self)@.slots.len() < usize::MAX,
        ensures
            final(self).wf(),
            final(self)@ == registered(old(self)@, texture),
            id == TextureId::User(first_free(old(self)@.slots) as u64),
            lookup(final(self)@, id) == Some(texture),
            id matches TextureId::User(n) && {
                let i = slot_index(n);
                let before = old(self)@.slots;
                let after = final(self)@.slots;
                &&& 0 <= i <= before.len()
                &&& forall|j: int| 0 <= j < i ==> #[trigger] before[j] is Some
                &&& i < before.len() ==> before[i] is None && after.len() == before.len()
                &&& i == before.len() ==> after.len() == before.len() + 1
                &&& after[i] == Some(registered_slot(texture))
                &&& forall|j: int| 0 <= j < before.len() && j != i ==> #[trigger] after[j] == before[j]
            },
            slot_index(first_free(old(self)@.slots) as u64) == first_free(old(self)@.slots),
            is_first_free(old(self)@.slots, first_free(old(self)@.slots)),
    {
        let id = self.alloc_user_texture();
        let ghost i = first_free(old(self)@.slots);
        let index: usize = match id {
            TextureId::User(n) => n as usize,
            TextureId::Egui => 0,
        };
        let user = UserTexture { pixels: Vec::new(), pixels_res: (0, 0), gl_texture: Some(texture) };
        assert(index == i);
        assert(self@.slots.len() == self.user_textures@.len());
        self.user_textures.set(index, Some(user));
        proof {
            assert(self@.slots =~= allocated(old(self)@).slots.update(i, Some(user.view())));
            assert(user.view() == registered_slot(texture));
            assert(self@.slots =~= put_slot(old(self)@.slots, i, registered_slot(texture)));
            assert(registered_slot(texture).pixels.len() == 0);
            assert(registered_slot(texture).size.0 == 0);
            assert(registered_slot(texture).size.1 == 0);
            assert(slot_wf(registered_slot(texture)));
            assert forall|j: int| 0 <= j < self@.slots.len() implies match #[trigger] self@.slots[j] {
                Some(s) => slot_wf(s),
                None => true,
            } by {
                if j != i {
                    assert(self@.slots[j] == allocated(old(self)@).slots[j]);
                }
            }
        }
        id
    }

    /// Gives new pixels to the user texture `id`, if it is allocated; they
    /// wait there for upload. Returns the uploaded texture that they replace,
    /// which the caller deletes.
    pub fn set_user_texture(&mut self, id: TextureId, size: (usize, usize), pixels: &[[u8; 4]]) -> (displaced: Option<T>)
        requires
            old(self).wf(),
            size.0 * size.1 == pixels@.len(),
            size.0 >= 1,
            size.1 >= 1,
            is_live_user(old(self)@, id) ==> pixels@.len() * 4 <= usize::MAX,
        ensures
            final(self).wf(),
            final(self)@ == with_pixels(old(self)@, id, size, pixel_bytes(rgba_views(pixels@))),
            displaced == displaced_by_pixels(old(self)@, id),
            is_live_user(old(self)@, id) ==> displaced == lookup(old(self)@, id),
            is_live_user(old(self)@, id) ==> lookup(final(self)@, id) is None,
            !is_live_user(old(self)@, id) ==> displaced is None && final(self)@ == old(self)@,
    {
        if let TextureId::User(n) = id {
            let index = n as usize;
            if index < self.user_textures.len() {
                assert(self@.slots[index as int] == slot_view(self.user_textures@[index as int]));
                if self.user_textures[index].is_some() {
                    let bytes = flatten_rgba(pixels);
                    let user = UserTexture { pixels: bytes, pixels_res: size, gl_texture: None };
                    let ghost new_slot = user.view();
                    let mut slot = Some(user);
                    self.user_textures.set_and_swap(index, &mut slot);
                    proof {
                        assert(self@.slots =~= old(self)@.slots.update(index as int, Some(new_slot)));
                    }
                    return match slot {
                        Some(previous) => previous.gl_texture,
                        None => None,
                    };
                }
            }
        }
        None
    }

    /// The uploaded textures of all allocated user slots, in slot order: what
    /// the caller deletes when it tears down its GPU data.
    pub fn user_gl_textures(&self) -> (textures: Vec<T>)
        ensures
            textures@ == live_gl_textures(self@.slots),
    {
        let n = self.user_textures.len();
        let mut textures: Vec<T> = Vec::new();
        let ghost slots = self@.slots;
        assert(slots.take(0) =~= Seq::<Option<SlotView<T>>>::empty());
        for k in 0..n
            invariant
                n == self.user_textures@.len(),
                slots == self@.slots,
                slots.len() == n,
                textures@ == live_gl_textures(slots.take(k as int)),
        {
            assert(slots[k as int] == slot_view(self.user_textures@[k as int]));
            assert(slots.take(k + 1).drop_last() =~= slots.take(k as int));
            assert(slots.take(k + 1).last() == slots[k as int]);
            match &self.user_textures[k] {
                Some(user_texture) => {
                    match user_texture.gl_texture {
                        Some(texture) => {
                            textures.push(texture);
                        },
                        None => {},
                    }
                },
                None => {},
            }
            assert(textures@ =~= live_gl_textures(slots.take(k + 1)));
        }
        assert(slots.take(n as int) =~= slots);
        textures
    }

    /// Frees user textures. Where `id` is a user id below the number of
    /// slots, every slot is freed, whatever the slot that `id` names, and the
    /// uploaded textures of the slots that were allocated are handed back for
    /// deletion; any other id changes nothing.
    pub fn free_user_texture(&mut self, id: TextureId) -> (to_delete: Vec<T>)
        requires
            old(self).wf(),
        ensures
            final(self).wf(),
            final(self)@ == freed(old(self)@, id),
            to_delete@ == deleted_by_free(old(self)@, id),
            final(self)@.slots.len() == old(self)@.slots.len(),
            final(self)@.egui_texture == old(self)@.egui_texture,
            final(self)@.egui_version == old(self)@.egui_version,
            frees_all(old(self)@, id) ==> forall|i: int|
                0 <= i < final(self)@.slots.len() ==> #[trigger] final(self)@.slots[i] is None,
            !frees_all(old(self)@, id) ==> final(self)@ == old(self)@ && to_delete@.len() == 0,
    {
        if let TextureId::User(n) = id {
            let index = n as usize;
            if index < self.user_textures.len() {
                let to_delete = self.user_gl_textures();
                let len = self.user_textures.len();
                let mut k: usize = 0;
                while k < len
                    invariant
                        len == self.user_textures@.len(),
                        k <= len,
                        forall|j: int| 0 <= j < k ==> #[trigger] self.user_textures@[j] is None,
                        self.egui_texture == old(self).egui_texture,
                        self.egui_texture_version == old(self).egui_texture_version,
                    decreases len - k,
                {
                    self.user_textures.set(k, None);
                    k = k + 1;
                }
                proof {
                    assert(self@.slots =~= Seq::new(old(self)@.slots.len(), |i: int| None));
                }
                return to_delete;
            }
        }
        Vec::new()
    }

    /// Hands out the pixel data that user slot `index` waits to upload, if the
    /// slot is allocated and has no uploaded texture yet; the slot then holds
    /// no pending data until [`Self::finish_upload`] gives it its texture.
    pub fn take_pending_upload(&mut self, index: usize) -> (upload: Option<PendingUpload>)
        requires
            old(self).wf(),
        ensures
            final(self).wf(),
            final(self)@ == upload_started(old(self)@, index as int),
            match upload {
                Some(u) => pending_upload(old(self)@, index as int) == Some(
                    (u.pixels@, (u.width, u.height)),
                ),
                None => pending_upload(old(self)@, index as int) is None,
            },
            upload matches Some(u) ==> u.pixels@.len() == u.width * u.height * 4,
            final(self)@.slots.len() == old(self)@.slots.len(),
            forall|j: int|
                0 <= j < old(self)@.slots.len() && j != index ==> #[trigger] final(self)@.slots[j]
                    == old(self)@.slots[j],
            upload matches Some(u) ==> {
                &&& index < old(self)@.slots.len()
                &&& old(self)@.slots[index as int] is Some
                &&& old(self)@.slots[index as int].unwrap().gl_texture is None
                &&& u.pixels@ == old(self)@.slots[index as int].unwrap().pixels
                &&& (u.width, u.height) == old(self)@.slots[index as int].unwrap().size
                &&& final(self)@.slots[index as int] == Some(fresh_slot::<T>())
            },
            upload is None ==> final(self)@ == old(self)@,
    {
        if index < self.user_textures.len() {
            assert(self@.slots[index as int] == slot_view(self.user_textures@[index as int]));
            let mut slot: Option<UserTexture<T>> = None;
            self.user_textures.set_and_swap(index, &mut slot);
            match slot {
                Some(user_texture) => {
                    if user_texture.gl_texture.is_none() {
                        let fresh = UserTexture {
                            pixels: Vec::new(),
                            pixels_res: (0, 0),
                            gl_texture: None,
                        };
                        self.user_textures.set(index, Some(fresh));
                        proof {
                            assert(fresh.view() == fresh_slot::<T>());
                            assert(self@.slots =~= old(self)@.slots.update(
                                index as int,
                                Some(fresh_slot()),
                            ));
                            assert(fresh_slot::<T>().pixels.len() == 0);
                            assert(slot_wf(fresh_slot::<T>()));
                            assert(slot_wf(user_texture.view()));
                        }
                        return Some(
                            PendingUpload {
                                pixels: user_texture.pixels,
                                width: user_texture.pixels_res.0,
                                height: user_texture.pixels_res.1,
                            },
                        );
                    } else {
                        self.user_textures.set(index, Some(user_texture));
                    }
                },
                None => {
                    self.user_textures.set(index, None);
                },
            }
            proof {
                assert(self@.slots =~= old(self)@.slots);
            }
        }
        None
    }

    /// Gives user slot `index`, which is allocated and holds no uploaded
    /// texture (as [`Self::take_pending_upload`] leaves it), its uploaded
    /// texture.
    pub fn finish_upload(&mut self, index: usize, texture: T)
        requires
            old(self).wf(),
            index < old(self)@.slots.len(),
            old(self)@.slots[index as int] is Some,
            old(self)@.slots[index as int].unwrap().gl_texture is None,
        ensures
            final(self).wf(),
            final(self)@ == upload_completed(old(self)@, index as int, texture),
            final(self)@.slots.len() == old(self)@.slots.len(),
            final(self)@.slots[index as int] == Some(
                SlotView {
                    pixels: old(self)@.slots[index as int].unwrap().pixels,
                    size: old(self)@.slots[index as int].unwrap().size,
                    gl_texture: Some(texture),
                },
            ),
            forall|j: int|
                0 <= j < old(self)@.slots.len() && j != index ==> #[trigger] final(self)@.slots[j]
                    == old(self)@.slots[j],
    {
        if index < self.user_textures.len() {
            assert(self@.slots[index as int] == slot_view(self.user_textures@[index as int]));
            let mut slot: Option<UserTexture<T>> = None;
            self.user_textures.set_and_swap(index, &mut slot);
            match slot {
                Some(user_texture) => {
                    let updated = UserTexture {
                        pixels: user_texture.pixels,
                        pixels_res: user_texture.pixels_res,
                        gl_texture: Some(texture),
                    };
                    let ghost v = updated.view();
                    self.user_textures.set(index, Some(updated));
                    proof {
                        assert(self@.slots =~= old(self)@.slots.update(index as int, Some(v)));
                    }
                },
                None => {
                    self.user_textures.set(index, None);
                    proof {
                        assert(self@.slots =~= old(self)@.slots);
                    }
                },
            }
        }
    }

    /// Whether the font texture of this version is the one uploaded last.
    pub fn egui_texture_is_current(&self, version: u64) -> (current: bool)
        ensures
            current == (self@.egui_version == Some(version)),
    {
        self.egui_texture_version == Some(version)
    }

    /// The RGBA bytes to upload for the egui font texture of the given
    /// version, whose pixels are white with the given alpha values; `None`
    /// when that version is the one uploaded last, whatever the pixels.
    pub fn egui_texture_upload(&self, version: u64, alpha: &[u8]) -> (bytes: Option<Vec<u8>>)
        requires
            self@.egui_version != Some(version) ==> alpha@.len() * 4 <= usize::MAX,
        ensures
            bytes is None <==> self@.egui_version == Some(version),
            bytes matches Some(b) ==> carries_alpha(b@, alpha@),
            bytes matches Some(b) ==> is_font_texture(b@, alpha@),
    {
        if self.egui_texture_is_current(version) {
            None
        } else {
            Some(font_texture_rgba(alpha))
        }
    }

    /// Installs the uploaded egui font texture of the given version and hands
    /// back the one it replaces, which the caller deletes.
    pub fn replace_egui_texture(&mut self, texture: T, version: u64) -> (previous: Option<T>)
        requires
            old(self).wf(),
        ensures
            final(self).wf(),
            final(self)@ == egui_replaced(old(self)@, texture, version),
            previous == old(self)@.egui_texture,
    {
        let previous = self.egui_texture;
        self.egui_texture = Some(texture);
        self.egui_texture_version = Some(version);
        previous
    }

    /// The texture to bind for a mesh with the given texture id: the font
    /// texture, or the uploaded texture of an allocated user slot.
    pub fn get_texture(&self, texture_id: TextureId) -> (texture: Option<T>)
        ensures
            texture == lookup(self@, texture_id),
    {
        match texture_id {
            TextureId::Egui => self.egui_texture,
            TextureId::User(id) => {
                let index = id as usize;
                if index < self.user_textures.len() {
                    assert(self@.slots[index as int] == slot_view(self.user_textures@[index as int]));
                    match &self.user_textures[index] {
                        Some(user_texture) => user_texture.gl_texture,
                        None => None,
                    }
                } else {
                    None
                }
            },
        }
    }
}

} // verus!
