//! Conversion of pixel data into the byte layout that is uploaded to the GPU.
use vstd::prelude::*;

verus! {

/// `egui::Color32::from_white_alpha(alpha).to_array()`: the premultiplied
/// sRGBA bytes of white with the given linear alpha.
///
/// egui turns the alpha byte into `alpha / 255.0` and back with
/// `(a * 255.0).round()`, an exact round trip, so the fourth byte is the alpha
/// byte. The three color bytes go through egui's gamma curve, which calls
/// `f32::powf`; std does not fix that function's precision, so nothing is said
/// of them, except for alpha 0: the gamma curve maps 0.0 to 0 before it
/// reaches `powf`, so that pixel is all zeros.
#[verifier::external_body]
fn white_alpha_color(alpha: u8) -> (rgba: [u8; 4])
    ensures
        rgba[3] == alpha,
        alpha == 0 ==> rgba[0] == 0 && rgba[1] == 0 && rgba[2] == 0,
{
    egui::Color32::from_white_alpha(alpha).to_array()
}

/// `rgba` are the four bytes of a color that
/// `egui::Color32::from_white_alpha(alpha).to_array()` gives: an outcome of
/// that call, whatever the precision of `f32::powf` on the machine that made
/// it.
pub closed spec fn is_white_alpha_color(alpha: u8, rgba: Seq<u8>) -> bool {
    exists|c: [u8; 4]| c@ == rgba && call_ensures(white_alpha_color, (alpha,), c)
}

/// The bytes of the egui font texture for the given alpha values: four per
/// alpha value, each four being the color that egui gives white with that
/// alpha.
pub open spec fn is_font_texture(bytes: Seq<u8>, alpha: Seq<u8>) -> bool {
    &&& bytes.len() == alpha.len() * 4
    &&& forall|k: int|
        0 <= k < alpha.len() ==> is_white_alpha_color(
            #[trigger] alpha[k],
            bytes.subrange(4 * k, 4 * k + 4),
        )
}

/// What a white-with-alpha color of egui is known to be: four bytes, the
/// fourth the alpha, and all zeros for alpha 0.
pub proof fn law_white_alpha_color(alpha: u8, rgba: Seq<u8>)
    requires
        is_white_alpha_color(alpha, rgba),
    ensures
        rgba.len() == 4,
        rgba[3] == alpha,
        alpha == 0 ==> rgba[0] == 0 && rgba[1] == 0 && rgba[2] == 0,
{
    let c = choose|c: [u8; 4]| c@ == rgba && call_ensures(white_alpha_color, (alpha,), c);
    vstd::array::array_len_matches_n(&c);
}

/// The font texture's bytes carry each alpha value in the fourth byte of its
/// pixel, and a pixel of alpha 0 is all zeros.
pub proof fn law_font_texture_carries_alpha(bytes: Seq<u8>, alpha: Seq<u8>)
    requires
        is_font_texture(bytes, alpha),
    ensures
        carries_alpha(bytes, alpha),
{
    assert forall|k: int| 0 <= k < alpha.len() implies bytes[4 * k + 3] == #[trigger] alpha[k] && (
    alpha[k] == 0 ==> {
        &&& bytes[4 * k] == 0
        &&& bytes[4 * k + 1] == 0
        &&& bytes[4 * k + 2] == 0
    }) by {
        let px = bytes.subrange(4 * k, 4 * k + 4);
        law_white_alpha_color(alpha[k], px);
        assert(px[3] == bytes[4 * k + 3]);
        assert(px[0] == bytes[4 * k]);
        assert(px[1] == bytes[4 * k + 1]);
        assert(px[2] == bytes[4 * k + 2]);
    }
}

/// The bytes of a sequence of 4-byte pixels laid out one after the other:
/// byte `i` is byte `i % 4` of pixel `i / 4`.
pub open spec fn pixel_bytes(pixels: Seq<Seq<u8>>) -> Seq<u8> {
    Seq::new(pixels.len() * 4, |i: int| pixels[i / 4][i % 4])
}

/// The views of a sequence of RGBA arrays.
pub open spec fn rgba_views(colors: Seq<[u8; 4]>) -> Seq<Seq<u8>> {
    colors.map_values(|c: [u8; 4]| c@)
}

/// Bytes of white-with-alpha pixels: four per alpha value, the fourth of each
/// four being that alpha value; a pixel of alpha 0 is all zeros.
pub open spec fn carries_alpha(bytes: Seq<u8>, alpha: Seq<u8>) -> bool {
    &&& bytes.len() == alpha.len() * 4
    &&& forall|k: int| 0 <= k < alpha.len() ==> bytes[4 * k + 3] == #[trigger] alpha[k]
    &&& forall|k: int|
        0 <= k < alpha.len() && #[trigger] alpha[k] == 0 ==> {
            &&& bytes[4 * k] == 0
            &&& bytes[4 * k + 1] == 0
            &&& bytes[4 * k + 2] == 0
        }
}

/// Lays out RGBA pixels as consecutive bytes, in the pixels' order.
pub fn flatten_rgba(colors: &[[u8; 4]]) -> (bytes: Vec<u8>)
    requires
        colors@.len() * 4 <= usize::MAX,
    ensures
        bytes@ == pixel_bytes(rgba_views(colors@)),
        bytes@.len() == colors@.len() * 4,
        forall|k: int, j: int|
            0 <= k < colors@.len() && 0 <= j < 4 ==> bytes@[4 * k + j] == #[trigger] colors@[k][j],
{
    let n = colors.len();
    let mut bytes: Vec<u8> = Vec::with_capacity(n * 4);
    for k in 0..n
        invariant
            n == colors@.len(),
            n * 4 <= usize::MAX,
            bytes@.len() == 4 * k,
            forall|j: int| 0 <= j < 4 * k ==> #[trigger] bytes@[j] == colors@[j / 4]@[j % 4],
    {
        let c: [u8; 4] = colors[k];
        proof {
            vstd::array::array_len_matches_n(&c);
        }
        bytes.push(c[0]);
        bytes.push(c[1]);
        bytes.push(c[2]);
        bytes.push(c[3]);
        assert forall|j: int| 0 <= j < 4 * (k + 1) implies #[trigger] bytes@[j] == colors@[j
            / 4]@[j % 4] by {
            if j >= 4 * k {
                assert(j / 4 == k);
            }
        }
    }
    let ghost views = rgba_views(colors@);
    assert(bytes@ =~= pixel_bytes(views));
    assert forall|k: int, j: int| 0 <= k < colors@.len() && 0 <= j < 4 implies bytes@[4 * k + j]
        == #[trigger] colors@[k][j] by {
        assert((4 * k + j) / 4 == k);
        assert((4 * k + j) % 4 == j);
    }
    bytes
}

/// The RGBA bytes of the egui font texture, whose pixels are white with the
/// given alpha values, each pixel as egui's `Color32::from_white_alpha` gives
/// it.
pub fn font_texture_rgba(alpha: &[u8]) -> (bytes: Vec<u8>)
    requires
        alpha@.len() * 4 <= usize::MAX,
    ensures
        is_font_texture(bytes@, alpha@),
        carries_alpha(bytes@, alpha@),
{
    let n = alpha.len();
    let mut colors: Vec<[u8; 4]> = Vec::with_capacity(n);
    for k in 0..n
        invariant
            n == alpha@.len(),
            colors@.len() == k,
            forall|j: int| 0 <= j < k ==> #[trigger] colors@[j][3] == alpha@[j],
            forall|j: int|
                0 <= j < k ==> #[trigger] call_ensures(white_alpha_color, (alpha@[j],), colors@[j]),
            forall|j: int|
                #![trigger colors@[j]]
                0 <= j < k && alpha@[j] == 0 ==> colors@[j][0] == 0 && colors@[j][1] == 0
                    && colors@[j][2] == 0,
    {
        let c = white_alpha_color(alpha[k]);
        assert(call_ensures(white_alpha_color, (alpha@[k as int],), c));
        colors.push(c);
        assert(colors@[k as int] == c);
    }
    let bytes = flatten_rgba(colors.as_slice());
    assert forall|k: int| 0 <= k < alpha@.len() implies bytes@[4 * k + 3] == #[trigger] alpha@[k] by {
        assert((4 * k + 3) / 4 == k);
        assert((4 * k + 3) % 4 == 3);
        assert(colors@[k][3] == alpha@[k]);
        assert(rgba_views(colors@)[k] == colors@[k]@);
    }
    assert forall|k: int| 0 <= k < alpha@.len() && #[trigger] alpha@[k] == 0 implies {
        &&& bytes@[4 * k] == 0
        &&& bytes@[4 * k + 1] == 0
        &&& bytes@[4 * k + 2] == 0
    } by {
        assert((4 * k) / 4 == k && (4 * k) % 4 == 0);
        assert((4 * k + 1) / 4 == k && (4 * k + 1) % 4 == 1);
        assert((4 * k + 2) / 4 == k && (4 * k + 2) % 4 == 2);
        assert(colors@[k][0] == 0);
        assert(rgba_views(colors@)[k] == colors@[k]@);
    }
    assert forall|k: int| 0 <= k < alpha@.len() implies is_white_alpha_color(
        #[trigger] alpha@[k],
        bytes@.subrange(4 * k, 4 * k + 4),
    ) by {
        let c = colors@[k];
        vstd::array::array_len_matches_n(&c);
        assert(rgba_views(colors@)[k] == c@);
        assert forall|j: int| 0 <= j < 4 implies #[trigger] bytes@.subrange(4 * k, 4 * k + 4)[j]
            == c@[j] by {
            assert((4 * k + j) / 4 == k);
            assert((4 * k + j) % 4 == j);
        }
        assert(bytes@.subrange(4 * k, 4 * k + 4) =~= c@);
        assert(call_ensures(white_alpha_color, (alpha@[k],), c));
    }
    bytes
}

/// Whether `len` bytes are exactly the RGBA pixels of a non-empty image
/// `width` pixels wide and `height` pixels high: the check that every texture
/// upload makes before it reaches the GPU.
pub fn is_rgba_image(len: usize, width: usize, height: usize) -> (ok: bool)
    ensures
        ok == (len == width * height * 4 && width >= 1 && height >= 1),
{
    if width == 0 || height == 0 {
        return false;
    }
    match width.checked_mul(height) {
        Some(pixels) => match pixels.checked_mul(4) {
            Some(bytes) => bytes == len,
            None => {
                proof {
                    assert(width * height * 4 > usize::MAX);
                }
                false
            },
        },
        None => {
            proof {
                assert(width * height * 4 >= width * height) by (nonlinear_arith)
                    requires
                        width >= 1,
                        height >= 1,
                ;
            }
            false
        },
    }
}

} // verus!
