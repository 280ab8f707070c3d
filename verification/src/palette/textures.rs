//! The palette's texture table: the images the renderer samples (the font
//! atlas and colour images), kept up to date from texture deltas.
//!
//! Texels are held as 32-bit words: a font texel is the bit pattern of its
//! coverage value, a colour texel a packed RGBA pixel. A delta either
//! replaces a whole texture or patches a rectangle of it in place; a patch is
//! clipped to the texture, never written out of bounds.

use vstd::prelude::*;

verus! {

/// The id of a texture.
#[derive(Clone, Copy, PartialEq, Eq, Debug, Structural)]
pub enum TextureId {
    /// A texture the UI library allocated (the font atlas is `Managed(0)`).
    Managed(u64),
    /// A texture the application allocated.
    User(u64),
}

/// Whether an image is a font atlas (coverage texels) or a colour image
/// (RGBA texels).
#[derive(Clone, Copy, PartialEq, Eq, Debug, Structural)]
pub enum TextureKind {
    Font,
    Color,
}

/// An image: its kind, its `[width, height]` and its texels, row by row.
#[derive(Debug)]
pub struct TextureImage {
    pub kind: TextureKind,
    pub size: [usize; 2],
    pub texels: Vec<u32>,
}

/// The plain data of a [`TextureImage`].
pub struct ImageView {
    pub kind: TextureKind,
    pub width: int,
    pub height: int,
    pub texels: Seq<u32>,
}

impl View for TextureImage {
    type V = ImageView;

    open spec fn view(&self) -> ImageView {
        ImageView { kind: self.kind, width: self.size[0] as int, height: self.size[1] as int, texels: self.texels@ }
    }
}

/// An image is well formed when it holds exactly `width * height` texels.
pub open spec fn image_wf(v: ImageView) -> bool {
    v.texels.len() == v.width * v.height
}

impl TextureImage {
    /// The image holds exactly `width * height` texels.
    pub open spec fn wf(&self) -> bool {
        image_wf(self@)
    }
}

impl Clone for TextureImage {
    fn clone(&self) -> (r: Self)
        ensures
            r@ == self@,
    {
        TextureImage { kind: self.kind, size: self.size, texels: self.texels.clone() }
    }
}

/// One texture change: the whole texture (`pos` is `None`) or a patch whose
/// top-left corner lands at `pos = [x, y]`.
#[derive(Debug)]
pub struct ImageDelta {
    pub image: TextureImage,
    pub pos: Option<[usize; 2]>,
}

/// The texture changes of one frame: textures to set or patch, in order,
/// then textures to free.
#[derive(Debug)]
pub struct TexturesDelta {
    pub set: Vec<(TextureId, ImageDelta)>,
    pub free: Vec<TextureId>,
}

/// `a - b`, or 0 when `b` exceeds `a`.
pub open spec fn sat_sub(a: int, b: int) -> int {
    if a >= b {
        a - b
    } else {
        0
    }
}

/// The smaller of two integers.
pub open spec fn min_int(a: int, b: int) -> int {
    if a <= b {
        a
    } else {
        b
    }
}

/// The number of patch rows that fit into `dst` below row `y`.
pub open spec fn patch_rows(dst: ImageView, src: ImageView, y: int) -> int {
    min_int(src.height, sat_sub(dst.height, y))
}

/// The number of patch columns that fit into `dst` right of column `x`.
pub open spec fn patch_cols(dst: ImageView, src: ImageView, x: int) -> int {
    min_int(src.width, sat_sub(dst.width, x))
}

/// True when texel `(r, c)` of `dst` lies under the clipped patch at `(x, y)`.
pub open spec fn under_patch(dst: ImageView, src: ImageView, x: int, y: int, r: int, c: int) -> bool {
    y <= r < y + patch_rows(dst, src, y) && x <= c < x + patch_cols(dst, src, x)
}

/// `dst` after writing the patch `src` with its top-left corner at `(x, y)`:
/// a patch of the other kind replaces the whole image; a patch that does not
/// overlap the image leaves it unchanged; otherwise the overlapping part of
/// the patch overwrites the texels under it and every other texel, and the
/// size, stay.
pub open spec fn patch_spec(dst: ImageView, src: ImageView, x: int, y: int) -> ImageView {
    if dst.kind != src.kind {
        src
    } else if patch_rows(dst, src, y) == 0 || patch_cols(dst, src, x) == 0 {
        dst
    } else {
        ImageView {
            kind: dst.kind,
            width: dst.width,
            height: dst.height,
            texels: Seq::new(
                dst.texels.len(),
                |i: int|
                    {
                        let r = i / dst.width;
                        let c = i % dst.width;
                        if under_patch(dst, src, x, y, r, c) {
                            src.texels[(r - y) * src.width + (c - x)]
                        } else {
                            dst.texels[i]
                        }
                    },
            ),
        }
    }
}

/// A patch of the same kind that fits inside the image at `[x, y]` (`x`
/// the column offset, `y` the row offset) writes its texel `(r, c)` to
/// texel `(y + r, x + c)` of the image, i.e. index `(y + r) * width + (x +
/// c)`; every texel outside the patched rectangle and the image's size and
/// kind stay as they were.
pub proof fn lemma_patch_places(dst: ImageView, src: ImageView, x: int, y: int)
    requires
        image_wf(dst),
        image_wf(src),
        dst.kind == src.kind,
        0 <= x,
        0 <= y,
        0 <= src.width,
        0 <= src.height,
        x + src.width <= dst.width,
        y + src.height <= dst.height,
    ensures
        patch_spec(dst, src, x, y).kind == dst.kind,
        patch_spec(dst, src, x, y).width == dst.width,
        patch_spec(dst, src, x, y).height == dst.height,
        patch_spec(dst, src, x, y).texels.len() == dst.texels.len(),
        forall|r: int, c: int|
            0 <= r < src.height && 0 <= c < src.width ==> #[trigger] patch_spec(dst, src, x, y).texels[(y
                + r) * dst.width + (x + c)] == src.texels[r * src.width + c],
        forall|r: int, c: int|
            0 <= r < dst.height && 0 <= c < dst.width && !(y <= r < y + src.height && x <= c < x
                + src.width) ==> #[trigger] patch_spec(dst, src, x, y).texels[r * dst.width + c]
                == dst.texels[r * dst.width + c],
{
    let out = patch_spec(dst, src, x, y);
    assert(patch_rows(dst, src, y) == src.height);
    assert(patch_cols(dst, src, x) == src.width);
    if src.height > 0 && src.width > 0 {
        assert forall|r: int, c: int|
            0 <= r < src.height && 0 <= c < src.width implies #[trigger] out.texels[(y + r) * dst.width + (
            x + c)] == src.texels[r * src.width + c] by {
            lemma_texel_index(y + r, x + c, dst.width);
            lemma_texel_in_bounds(y + r, x + c, dst.width, dst.height);
        }
        assert forall|r: int, c: int|
            0 <= r < dst.height && 0 <= c < dst.width && !(y <= r < y + src.height && x <= c < x
                + src.width) implies #[trigger] out.texels[r * dst.width + c] == dst.texels[r * dst.width
            + c] by {
            lemma_texel_index(r, c, dst.width);
            lemma_texel_in_bounds(r, c, dst.width, dst.height);
        }
    }
}

/// Row `r`, column `c` of a `w`-wide image sits at `r * w + c`.
proof fn lemma_texel_index(r: int, c: int, w: int)
    requires
        0 <= c < w,
        0 <= r,
    ensures
        (r * w + c) / w == r,
        (r * w + c) % w == c,
{
    vstd::arithmetic::div_mod::lemma_fundamental_div_mod_converse(r * w + c, w, r, c);
}

/// A texel inside a `w` by `h` image lies inside its texel sequence.
proof fn lemma_texel_in_bounds(r: int, c: int, w: int, h: int)
    requires
        0 <= r < h,
        0 <= c < w,
    ensures
        0 <= r * w + c < w * h,
        r * w + c + 1 <= w * h,
{
    assert(r * w + c < w * h) by (nonlinear_arith)
        requires
            0 <= r < h,
            0 <= c < w,
    ;
    assert(0 <= r * w) by (nonlinear_arith)
        requires
            0 <= r,
            0 <= c < w,
    ;
}

/// Write the patch `patch` into `existing` with its top-left corner at `pos`
/// (`[x, y]`): rows and columns beyond the image are clipped, a patch that
/// does not overlap is skipped, and a patch of the other kind replaces the
/// whole image.
pub fn patch_texture_image(existing: &mut TextureImage, patch: &TextureImage, pos: [usize; 2])
    requires
        old(existing).wf(),
        patch.wf(),
    ensures
        final(existing).wf(),
        final(existing)@ == patch_spec(old(existing)@, patch@, pos[0] as int, pos[1] as int),
        old(existing)@.kind == patch@.kind && pos[0] + patch@.width <= old(existing)@.width && pos[1]
            + patch@.height <= old(existing)@.height ==> forall|r: int, c: int|
            0 <= r < patch@.height && 0 <= c < patch@.width ==> #[trigger] final(existing)@.texels[(pos[1]
                + r) * old(existing)@.width + (pos[0] + c)] == patch@.texels[r * patch@.width + c],
{
    proof {
        if old(existing)@.kind == patch@.kind && pos[0] + patch@.width <= old(existing)@.width && pos[1]
            + patch@.height <= old(existing)@.height {
            lemma_patch_places(old(existing)@, patch@, pos[0] as int, pos[1] as int);
        }
    }
    let x = pos[0];
    let y = pos[1];
    if existing.kind != patch.kind {
        *existing = patch.clone();
        return;
    }
    let dst_w = existing.size[0];
    let dst_h = existing.size[1];
    let src_w = patch.size[0];
    let src_h = patch.size[1];
    let room_h = dst_h.saturating_sub(y);
    let room_w = dst_w.saturating_sub(x);
    let rows = if src_h <= room_h { src_h } else { room_h };
    let cols = if src_w <= room_w { src_w } else { room_w };
    if rows == 0 || cols == 0 {
        return;
    }
    let total = existing.texels.len();
    let patch_total = patch.texels.len();
    let ghost dst = existing@;
    let ghost src = patch@;
    let ghost w = dst_w as int;
    proof {
        assert(rows as int == patch_rows(dst, src, y as int));
        assert(cols as int == patch_cols(dst, src, x as int));
    }
    let mut row: usize = 0;
    while row < rows
        invariant
            row <= rows,
            rows as int == patch_rows(dst, src, y as int),
            cols as int == patch_cols(dst, src, x as int),
            w == dst_w,
            dst_w == dst.width,
            dst_h == dst.height,
            src_w == src.width,
            src_h == src.height,
            0 < rows <= src_h,
            0 < cols <= src_w,
            y + rows <= dst_h,
            x + cols <= dst_w,
            image_wf(dst),
            image_wf(src),
            dst.texels.len() == total,
            src.texels.len() == patch_total,
            patch.texels@ == src.texels,
            existing.kind == dst.kind,
            existing.size == old(existing).size,
            existing.texels@.len() == dst.texels.len(),
            forall|i: int|
                0 <= i < dst.texels.len() ==> #[trigger] existing.texels@[i] == if under_patch(dst, src, x as int, y as int, i / w, i % w) && i / w < y + row {
                    src.texels[(i / w - y) * src.width + (i % w - x)]
                } else {
                    dst.texels[i]
                },
        decreases rows - row,
    {
        let mut col: usize = 0;
        while col < cols
            invariant
                row < rows,
                col <= cols,
                rows as int == patch_rows(dst, src, y as int),
                cols as int == patch_cols(dst, src, x as int),
                w == dst_w,
                dst_w == dst.width,
                dst_h == dst.height,
                src_w == src.width,
                src_h == src.height,
                0 < rows <= src_h,
                0 < cols <= src_w,
                y + rows <= dst_h,
                x + cols <= dst_w,
                image_wf(dst),
                image_wf(src),
                dst.texels.len() == total,
                src.texels.len() == patch_total,
            src.texels.len() == patch_total,
                patch.texels@ == src.texels,
                existing.kind == dst.kind,
                existing.size == old(existing).size,
                existing.texels@.len() == dst.texels.len(),
                forall|i: int|
                    0 <= i < dst.texels.len() ==> #[trigger] existing.texels@[i] == if under_patch(dst, src, x as int, y as int, i / w, i % w) && (i / w < y + row || (i / w == y + row && i % w < x + col)) {
                        src.texels[(i / w - y) * src.width + (i % w - x)]
                    } else {
                        dst.texels[i]
                    },
            decreases cols - col,
        {
            proof {
                lemma_texel_in_bounds((y + row) as int, (x + col) as int, dst_w as int, dst_h as int);
                lemma_texel_in_bounds(row as int, col as int, src_w as int, src_h as int);
                lemma_texel_index((y + row) as int, (x + col) as int, w);
            }
            let d = (y + row) * dst_w + (x + col);
            let s = row * src_w + col;
            let v = patch.texels[s];
            existing.texels[d] = v;
            proof {
                assert forall|i: int| 0 <= i < dst.texels.len() implies #[trigger] existing.texels@[i] == if under_patch(dst, src, x as int, y as int, i / w, i % w) && (i / w < y + row || (i / w == y + row && i % w < x + col + 1)) {
                    src.texels[(i / w - y) * src.width + (i % w - x)]
                } else {
                    dst.texels[i]
                } by {
                    if i != d {
                        vstd::arithmetic::div_mod::lemma_fundamental_div_mod(i, w);
                        vstd::arithmetic::div_mod::lemma_fundamental_div_mod(d as int, w);
                        if i / w == y + row && i % w == x + col {
                            assert(i == w * (i / w) + i % w);
                            assert(d == w * (y + row) + (x + col)) by (nonlinear_arith)
                                requires
                                    d == (y + row) * w + (x + col),
                            ;
                        }
                    }
                }
            }
            col = col + 1;
        }
        row = row + 1;
    }
    proof {
        assert forall|i: int| 0 <= i < dst.texels.len() implies #[trigger] existing.texels@[i] == patch_spec(dst, src, x as int, y as int).texels[i] by {
            vstd::arithmetic::div_mod::lemma_fundamental_div_mod(i, w);
            if under_patch(dst, src, x as int, y as int, i / w, i % w) {
                assert(i / w < y + rows);
            }
        }
        assert(existing.texels@ =~= patch_spec(dst, src, x as int, y as int).texels);
    }
}

/// The texture map of a list of `(id, image)` entries (a later entry for
/// the same id wins).
pub open spec fn entries_map(s: Seq<(TextureId, TextureImage)>) -> Map<TextureId, ImageView>
    decreases s.len(),
{
    if s.len() == 0 {
        Map::empty()
    } else {
        entries_map(s.drop_last()).insert(s.last().0, s.last().1@)
    }
}

/// No id occurs twice among the entries, and every image is well formed.
pub open spec fn entries_wf(s: Seq<(TextureId, TextureImage)>) -> bool {
    &&& forall|i: int, j: int| 0 <= i < s.len() && 0 <= j < s.len() && i != j ==> s[i].0 != s[j].0
    &&& forall|i: int| 0 <= i < s.len() ==> (#[trigger] s[i]).1.wf()
}

/// The map of well-formed entries holds exactly their ids, each with its
/// image.
proof fn lemma_entries_map(s: Seq<(TextureId, TextureImage)>)
    requires
        entries_wf(s),
    ensures
        forall|id: TextureId| #[trigger] entries_map(s).dom().contains(id) <==> exists|j: int| 0 <= j < s.len() && s[j].0 == id,
        forall|j: int| 0 <= j < s.len() ==> entries_map(s)[#[trigger] s[j].0] == s[j].1@,
        forall|id: TextureId| #[trigger] entries_map(s).dom().contains(id) ==> image_wf(entries_map(s)[id]),
    decreases s.len(),
{
    if s.len() > 0 {
        let t = s.drop_last();
        assert(entries_wf(t)) by {
            assert forall|i: int| 0 <= i < t.len() implies (#[trigger] t[i]).1.wf() by {
                assert(t[i] == s[i]);
            }
        }
        lemma_entries_map(t);
        assert forall|id: TextureId| #[trigger] entries_map(s).dom().contains(id) <==> exists|j: int| 0 <= j < s.len() && s[j].0 == id by {
            if entries_map(s).dom().contains(id) && id != s.last().0 {
                assert(entries_map(t).dom().contains(id));
                let j = choose|j: int| 0 <= j < t.len() && t[j].0 == id;
                assert(s[j].0 == id);
            }
            if exists|j: int| 0 <= j < s.len() && s[j].0 == id {
                let j = choose|j: int| 0 <= j < s.len() && s[j].0 == id;
                if j < s.len() - 1 {
                    assert(t[j].0 == id);
                }
            }
        }
        assert forall|j: int| 0 <= j < s.len() implies entries_map(s)[#[trigger] s[j].0] == s[j].1@ by {
            if j < s.len() - 1 {
                assert(t[j] == s[j]);
                assert(s[j].0 != s.last().0);
            }
        }
        assert forall|id: TextureId| #[trigger] entries_map(s).dom().contains(id) implies image_wf(entries_map(s)[id]) by {
            if id != s.last().0 {
                assert(entries_map(t).dom().contains(id));
            } else {
                assert(s[s.len() - 1].1.wf());
            }
        }
    }
}

/// Replacing the image of entry `k` replaces the image of its id.
proof fn lemma_entries_map_update(s: Seq<(TextureId, TextureImage)>, k: int, e: (TextureId, TextureImage))
    requires
        0 <= k < s.len(),
        s[k].0 == e.0,
        entries_wf(s),
    ensures
        entries_map(s.update(k, e)) == entries_map(s).insert(e.0, e.1@),
    decreases s.len(),
{
    let u = s.update(k, e);
    if k == s.len() - 1 {
        assert(u.drop_last() =~= s.drop_last());
        assert(entries_map(u) =~= entries_map(s).insert(e.0, e.1@));
    } else {
        let t = s.drop_last();
        assert(entries_wf(t)) by {
            assert forall|i: int| 0 <= i < t.len() implies (#[trigger] t[i]).1.wf() by {
                assert(t[i] == s[i]);
            }
        }
        assert(u.drop_last() =~= t.update(k, e));
        lemma_entries_map_update(t, k, e);
        assert(s.last().0 != e.0);
        assert(entries_map(u) =~= entries_map(s).insert(e.0, e.1@));
    }
}

/// Removing entry `k` removes its id.
proof fn lemma_entries_map_remove(s: Seq<(TextureId, TextureImage)>, k: int)
    requires
        0 <= k < s.len(),
        entries_wf(s),
    ensures
        entries_map(s.remove(k)) == entries_map(s).remove(s[k].0),
    decreases s.len(),
{
    let r = s.remove(k);
    let t = s.drop_last();
    assert(entries_wf(t)) by {
        assert forall|i: int| 0 <= i < t.len() implies (#[trigger] t[i]).1.wf() by {
            assert(t[i] == s[i]);
        }
    }
    if k == s.len() - 1 {
        assert(r =~= t);
        lemma_entries_map(t);
        assert(!entries_map(t).dom().contains(s[k].0)) by {
            if entries_map(t).dom().contains(s[k].0) {
                let j = choose|j: int| 0 <= j < t.len() && t[j].0 == s[k].0;
                assert(s[j].0 == s[k].0);
            }
        }
        assert(entries_map(r) =~= entries_map(s).remove(s[k].0));
    } else {
        assert(r.drop_last() =~= t.remove(k));
        assert(r.last() == s.last());
        lemma_entries_map_remove(t, k);
        assert(s.last().0 != s[k].0);
        assert(entries_map(r) =~= entries_map(s).remove(s[k].0));
    }
}

/// The texture table: at most one image per id. The pairs are kept in a
/// vector with distinct ids rather than a hash map, so that lookups and
/// updates are proved against the id's structural equality, with no hash
/// function in between that the verifier cannot see into.
pub struct TextureTable {
    entries: Vec<(TextureId, TextureImage)>,
}

impl View for TextureTable {
    type V = Map<TextureId, ImageView>;

    closed spec fn view(&self) -> Map<TextureId, ImageView> {
        entries_map(self.entries@)
    }
}

/// The table after setting or patching texture `id` with `image`: a whole
/// image (`pos` is `None`) replaces the texture; a patch is written into the
/// existing texture, or stored as the whole texture when the id is unknown.
pub open spec fn apply_set_spec(m: Map<TextureId, ImageView>, id: TextureId, image: ImageView, pos: Option<(int, int)>) -> Map<TextureId, ImageView> {
    match pos {
        None => m.insert(id, image),
        Some((x, y)) => if m.dom().contains(id) {
            m.insert(id, patch_spec(m[id], image, x, y))
        } else {
            m.insert(id, image)
        },
    }
}

/// The position of a delta as a pair of integers.
pub open spec fn pos_view(pos: Option<[usize; 2]>) -> Option<(int, int)> {
    match pos {
        Some(p) => Some((p[0] as int, p[1] as int)),
        None => None,
    }
}

/// The table after every change of `set`, in order.
pub open spec fn apply_sets_spec(m: Map<TextureId, ImageView>, set: Seq<(TextureId, ImageDelta)>) -> Map<TextureId, ImageView>
    decreases set.len(),
{
    if set.len() == 0 {
        m
    } else {
        let (id, d) = set.last();
        apply_set_spec(apply_sets_spec(m, set.drop_last()), id, d.image@, pos_view(d.pos))
    }
}

/// The table after freeing every id of `free`.
pub open spec fn free_spec(m: Map<TextureId, ImageView>, free: Seq<TextureId>) -> Map<TextureId, ImageView>
    decreases free.len(),
{
    if free.len() == 0 {
        m
    } else {
        free_spec(m, free.drop_last()).remove(free.last())
    }
}

/// The table after a whole delta: its changes in order, then its frees.
pub open spec fn apply_delta_spec(m: Map<TextureId, ImageView>, delta: TexturesDelta) -> Map<TextureId, ImageView> {
    free_spec(apply_sets_spec(m, delta.set@), delta.free@)
}

/// Every image of a delta is well formed.
pub open spec fn delta_wf(delta: TexturesDelta) -> bool {
    forall|i: int| 0 <= i < delta.set@.len() ==> (#[trigger] delta.set@[i]).1.image.wf()
}

impl TextureTable {
    /// No id occurs twice, and every image is well formed.
    pub closed spec fn wf(&self) -> bool {
        entries_wf(self.entries@)
    }

    /// An empty table.
    pub fn new() -> (r: Self)
        ensures
            r.wf(),
            r@ == Map::<TextureId, ImageView>::empty(),
    {
        TextureTable { entries: Vec::new() }
    }

    /// Every image of a well-formed table is well formed.
    pub proof fn lemma_images_wf(&self)
        requires
            self.wf(),
        ensures
            forall|id: TextureId| #[trigger] self@.dom().contains(id) ==> image_wf(self@[id]),
    {
        lemma_entries_map(self.entries@);
    }

    /// The position of `id` among the entries.
    fn find(&self, id: TextureId) -> (r: Option<usize>)
        requires
            self.wf(),
        ensures
            r is None ==> !self@.dom().contains(id),
            r matches Some(k) ==> k < self.entries@.len() && self.entries@[k as int].0 == id,
    {
        proof {
            lemma_entries_map(self.entries@);
        }
        let mut k: usize = 0;
        while k < self.entries.len()
            invariant
                k <= self.entries@.len(),
                forall|j: int| 0 <= j < k ==> self.entries@[j].0 != id,
            decreases self.entries@.len() - k,
        {
            if self.entries[k].0 == id {
                return Some(k);
            }
            k = k + 1;
        }
        None
    }

    /// The image of texture `id`, if any.
    pub fn get(&self, id: &TextureId) -> (r: Option<&TextureImage>)
        requires
            self.wf(),
        ensures
            r is None <==> !self@.dom().contains(*id),
            r matches Some(img) ==> img@ == self@[*id],
    {
        proof {
            lemma_entries_map(self.entries@);
        }
        match self.find(*id) {
            Some(k) => Some(&self.entries[k].1),
            None => None,
        }
    }

    /// Number of textures.
    pub fn len(&self) -> (r: usize)
        requires
            self.wf(),
        ensures
            r == self@.len(),
    {
        proof {
            lemma_entries_len(self.entries@);
        }
        self.entries.len()
    }

    /// Set texture `id` to `image` (replacing any image it had).
    fn insert(&mut self, id: TextureId, image: TextureImage)
        requires
            old(self).wf(),
            image.wf(),
        ensures
            final(self).wf(),
            final(self)@ == old(self)@.insert(id, image@),
    {
        let ghost s = self.entries@;
        match self.find(id) {
            Some(k) => {
                proof {
                    lemma_entries_map_update(s, k as int, (id, image));
                }
                self.entries[k] = (id, image);
                proof {
                    assert(self.entries@ == s.update(k as int, (id, image)));
                    assert forall|i: int| 0 <= i < self.entries@.len() implies (#[trigger] self.entries@[i]).1.wf() by {
                        if i != k {
                            assert(self.entries@[i] == s[i]);
                        }
                    }
                }
            },
            None => {
                proof {
                    lemma_entries_map(s);
                }
                self.entries.push((id, image));
                proof {
                    assert(self.entries@.drop_last() =~= s);
                    assert forall|i: int| 0 <= i < s.len() implies s[i].0 != id by {
                        assert(entries_map(s).dom().contains(s[i].0));
                    }
                    assert forall|i: int| 0 <= i < self.entries@.len() implies (#[trigger] self.entries@[i]).1.wf() by {
                        if i < s.len() {
                            assert(self.entries@[i] == s[i]);
                        }
                    }
                }
            },
        }
    }

    /// Free texture `id` (no effect when it is absent).
    fn remove(&mut self, id: TextureId)
        requires
            old(self).wf(),
        ensures
            final(self).wf(),
            final(self)@ == old(self)@.remove(id),
    {
        let ghost s = self.entries@;
        match self.find(id) {
            Some(k) => {
                proof {
                    lemma_entries_map_remove(s, k as int);
                }
                self.entries.remove(k);
                proof {
                    assert(self.entries@ == s.remove(k as int));
                    assert forall|i: int, j: int| 0 <= i < self.entries@.len() && 0 <= j < self.entries@.len() && i != j implies self.entries@[i].0 != self.entries@[j].0 by {
                        let ii = if i < k { i } else { i + 1 };
                        let jj = if j < k { j } else { j + 1 };
                        assert(self.entries@[i] == s[ii]);
                        assert(self.entries@[j] == s[jj]);
                    }
                    assert forall|i: int| 0 <= i < self.entries@.len() implies (#[trigger] self.entries@[i]).1.wf() by {
                        let ii = if i < k { i } else { i + 1 };
                        assert(self.entries@[i] == s[ii]);
                    }
                }
            },
            None => {
                assert(old(self)@.remove(id) =~= self@);
            },
        }
    }

    /// Merge a texture delta: each change in order (a whole image replaces
    /// the texture; a patch is written in place into the existing texture,
    /// or stored whole when the id is unknown), then free the listed ids.
    pub fn apply(&mut self, delta: TexturesDelta)
        requires
            old(self).wf(),
            delta_wf(delta),
        ensures
            final(self).wf(),
            final(self)@ == apply_delta_spec(old(self)@, delta),
    {
        let ghost m0 = self@;
        let ghost set = delta.set@;
        let ghost free = delta.free@;
        let TexturesDelta { set: set_vec, free: free_vec } = delta;
        let mut set_vec = set_vec;
        let n = set_vec.len();
        let mut i: usize = 0;
        while set_vec.len() > 0
            invariant
                self.wf(),
                set.len() == n,
                i + set_vec@.len() == set.len(),
                set_vec@ =~= set.skip(i as int),
                forall|j: int| 0 <= j < set.len() ==> (#[trigger] set[j]).1.image.wf(),
                self@ == apply_sets_spec(m0, set.take(i as int)),
            decreases set_vec@.len(),
        {
            let (id, change) = set_vec.remove(0);
            proof {
                assert(set.take(i + 1).drop_last() =~= set.take(i as int));
                assert(set.take(i + 1).last() == set[i as int]);
                assert((id, change) == set[i as int]);
            }
            let ImageDelta { image, pos } = change;
            match pos {
                None => {
                    self.insert(id, image);
                },
                Some(p) => {
                    match self.find(id) {
                        Some(k) => {
                            let ghost s = self.entries@;
                            proof {
                                lemma_entries_map(s);
                            }
                            let (kid, mut existing) = self.entries.remove(k);
                            patch_texture_image(&mut existing, &image, p);
                            proof {
                                assert(s[k as int].1.wf());
                            }
                            self.entries.insert(k, (kid, existing));
                            proof {
                                let e = (kid, existing);
                                assert(self.entries@ =~= s.update(k as int, e));
                                lemma_entries_map_update(s, k as int, e);
                                assert forall|j: int| 0 <= j < self.entries@.len() implies (#[trigger] self.entries@[j]).1.wf() by {
                                    if j != k {
                                        assert(self.entries@[j] == s[j]);
                                    }
                                }
                            }
                        },
                        None => {
                            self.insert(id, image);
                        },
                    }
                },
            }
            i = i + 1;
        }
        proof {
            assert(set.take(i as int) =~= set);
        }
        let mut f: usize = 0;
        while f < free_vec.len()
            invariant
                self.wf(),
                f <= free_vec@.len(),
                free_vec@ == free,
                self@ == free_spec(apply_sets_spec(m0, set), free.take(f as int)),
            decreases free_vec@.len() - f,
        {
            self.remove(free_vec[f]);
            proof {
                assert(free.take(f + 1).drop_last() =~= free.take(f as int));
            }
            f = f + 1;
        }
        proof {
            assert(free.take(f as int) =~= free);
        }
    }
}

/// The number of ids of well-formed entries is their count.
proof fn lemma_entries_len(s: Seq<(TextureId, TextureImage)>)
    requires
        entries_wf(s),
    ensures
        entries_map(s).len() == s.len(),
        entries_map(s).dom().finite(),
    decreases s.len(),
{
    if s.len() > 0 {
        let t = s.drop_last();
        assert(entries_wf(t)) by {
            assert forall|i: int| 0 <= i < t.len() implies (#[trigger] t[i]).1.wf() by {
                assert(t[i] == s[i]);
            }
        }
        lemma_entries_len(t);
        lemma_entries_map(t);
        assert(!entries_map(t).dom().contains(s.last().0)) by {
            if entries_map(t).dom().contains(s.last().0) {
                let j = choose|j: int| 0 <= j < t.len() && t[j].0 == s.last().0;
                assert(s[j].0 == s[s.len() - 1].0);
            }
        }
    }
}

} // verus!
