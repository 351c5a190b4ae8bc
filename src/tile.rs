use vstd::prelude::*;

verus! {

/// Small integer naming one tile image; the map binds ids to texture handles.
pub type TextureID = i32;

/// Behaviour tags carried by a tile.
#[derive(Clone, Copy, Debug, PartialEq, Eq, Structural)]
pub enum Tags {
    /// Blocks the actor's movement.
    Barrier,
    /// Can be struck by a tool of the matching type.
    Destroyable,
    /// Marks a level exit.
    Goal,
}

/// The render and behaviour state of one grid cell.
#[derive(Debug)]
pub enum Tile {
    /// One fixed image and a fixed tag set.
    Static(TextureID, Vec<Tags>),
    /// Frames shown in a loop: frames, current frame, tags.
    Animated(Vec<TextureID>, usize, Vec<Tags>),
    /// Frames shown once, holding on the last: frames, current frame, tags.
    AnimatedOnce(Vec<TextureID>, usize, Vec<Tags>),
}

#[derive(Clone, Copy, Debug, PartialEq, Eq, Structural)]
pub enum TileKind {
    Static,
    Animated,
    AnimatedOnce,
}

/// Mathematical model of a tile: a static tile is a one-frame sequence.
pub struct TileView {
    pub kind: TileKind,
    pub frames: Seq<TextureID>,
    pub index: int,
    pub tags: Set<Tags>,
}

/// Texture ids of the destroyable objects and of their falling sequences.
pub const PALM_ID: TextureID = 2;
pub const STONE_ID: TextureID = 7;
pub const PILE_ID: TextureID = 18;

impl TileView {
    /// The current frame is a valid index into the frame sequence.
    pub open spec fn wf(self) -> bool {
        0 <= self.index < self.frames.len()
    }

    pub open spec fn texture(self) -> TextureID {
        self.frames[self.index]
    }

    pub open spec fn has(self, t: Tags) -> bool {
        self.tags.contains(t)
    }

    /// One animation step: a looping tile wraps past its last frame; a one-shot tile
    /// holds on its last frame and drops `Barrier` once it stands there.
    pub open spec fn step(self) -> TileView {
        match self.kind {
            TileKind::Static => self,
            TileKind::Animated => if self.index + 1 < self.frames.len() {
                TileView { index: self.index + 1, ..self }
            } else {
                TileView { index: 0, ..self }
            },
            TileKind::AnimatedOnce => if self.index + 1 < self.frames.len() {
                if self.index + 2 < self.frames.len() {
                    TileView { index: self.index + 1, ..self }
                } else {
                    TileView { index: self.index + 1, tags: self.tags.remove(Tags::Barrier), ..self }
                }
            } else {
                TileView { tags: self.tags.remove(Tags::Barrier), ..self }
            },
        }
    }

    /// `n` animation steps in a row.
    pub open spec fn steps(self, n: nat) -> TileView
        decreases n,
    {
        if n == 0 {
            self
        } else {
            self.steps((n - 1) as nat).step()
        }
    }
}

impl View for Tile {
    type V = TileView;

    open spec fn view(&self) -> TileView {
        match self {
            Tile::Static(id, tags) => TileView {
                kind: TileKind::Static,
                frames: seq![*id],
                index: 0,
                tags: tags@.to_set(),
            },
            Tile::Animated(frames, current, tags) => TileView {
                kind: TileKind::Animated,
                frames: frames@,
                index: *current as int,
                tags: tags@.to_set(),
            },
            Tile::AnimatedOnce(frames, current, tags) => TileView {
                kind: TileKind::AnimatedOnce,
                frames: frames@,
                index: *current as int,
                tags: tags@.to_set(),
            },
        }
    }
}

/// Whether `tags` holds `tag`.
fn tags_contain(tags: &Vec<Tags>, tag: Tags) -> (r: bool)
    ensures
        r == tags@.contains(tag),
{
    let mut i: usize = 0;
    while i < tags.len()
        invariant
            0 <= i <= tags.len(),
            forall|j: int| 0 <= j < i ==> tags@[j] != tag,
        decreases tags.len() - i,
    {
        if tags[i] == tag {
            return true;
        }
        i += 1;
    }
    false
}

/// The tags other than `tag`.
pub open spec fn other_than(tag: Tags) -> spec_fn(Tags) -> bool {
    |t: Tags| t != tag
}

/// A copy of `tags` without `tag`.
fn tags_without(tags: &Vec<Tags>, tag: Tags) -> (r: Vec<Tags>)
    ensures
        r@.to_set() == tags@.to_set().remove(tag),
{
    let mut r: Vec<Tags> = Vec::new();
    let mut i: usize = 0;
    while i < tags.len()
        invariant
            0 <= i <= tags.len(),
            r@ == tags@.subrange(0, i as int).filter(other_than(tag)),
        decreases tags.len() - i,
    {
        let t = tags[i];
        proof {
            assert(tags@.subrange(0, i + 1) == tags@.subrange(0, i as int).push(t));
            tags@.subrange(0, i as int).lemma_filter_push(t, other_than(tag));
        }
        assert(other_than(tag)(t) == (t != tag));
        if t != tag {
            r.push(t);
        }
        i += 1;
    }
    proof {
        broadcast use vstd::seq_lib::group_filter_ensures;

        assert(tags@.subrange(0, tags@.len() as int) == tags@);
        assert forall|u: Tags| r@.contains(u) <==> (tags@.contains(u) && u != tag) by {
            if r@.contains(u) {
                tags@.lemma_filter_contains_rev(other_than(tag), u);
                let j = choose|j: int| 0 <= j < r@.len() && r@[j] == u;
                assert(other_than(tag)(r@[j]));
            }
            if tags@.contains(u) && u != tag {
                let j = choose|j: int| 0 <= j < tags@.len() && tags@[j] == u;
                assert(tags@.filter(other_than(tag)).contains(tags@[j]));
            }
        }
        assert(r@.to_set() =~= tags@.to_set().remove(tag));
    }
    r
}

/// A fresh copy of a tag vector.
fn tags_copy(tags: &Vec<Tags>) -> (r: Vec<Tags>)
    ensures
        r@ == tags@,
{
    let mut r: Vec<Tags> = Vec::new();
    let mut i: usize = 0;
    while i < tags.len()
        invariant
            0 <= i <= tags.len(),
            r@ == tags@.subrange(0, i as int),
        decreases tags.len() - i,
    {
        r.push(tags[i]);
        i += 1;
        assert(r@ =~= tags@.subrange(0, i as int));
    }
    assert(r@ =~= tags@);
    r
}

/// A fresh copy of a frame vector.
fn frames_copy(frames: &Vec<TextureID>) -> (r: Vec<TextureID>)
    ensures
        r@ == frames@,
{
    let mut r: Vec<TextureID> = Vec::new();
    let mut i: usize = 0;
    while i < frames.len()
        invariant
            0 <= i <= frames.len(),
            r@ == frames@.subrange(0, i as int),
        decreases frames.len() - i,
    {
        r.push(frames[i]);
        i += 1;
        assert(r@ =~= frames@.subrange(0, i as int));
    }
    assert(r@ =~= frames@);
    r
}

impl Clone for Tile {
    fn clone(&self) -> (r: Self)
        ensures
            r@ == self@,
    {
        match self {
            Tile::Static(id, tags) => Tile::Static(*id, tags_copy(tags)),
            Tile::Animated(frames, current, tags) => Tile::Animated(frames_copy(frames), *current, tags_copy(tags)),
            Tile::AnimatedOnce(frames, current, tags) => Tile::AnimatedOnce(frames_copy(frames), *current, tags_copy(tags)),
        }
    }
}

impl Tile {
    /// Whether the tile carries `tag`.
    pub fn has_tag(&self, tag: Tags) -> (r: bool)
        ensures
            r == self@.has(tag),
    {
        match self {
            Tile::Static(_, tags) => tags_contain(tags, tag),
            Tile::Animated(_, _, tags) => tags_contain(tags, tag),
            Tile::AnimatedOnce(_, _, tags) => tags_contain(tags, tag),
        }
    }

    /// The texture id of the frame now shown.
    pub fn texture_id(&self) -> (r: TextureID)
        requires
            self@.wf(),
        ensures
            r == self@.texture(),
    {
        match self {
            Tile::Static(id, _) => *id,
            Tile::Animated(frames, current, _) => frames[*current],
            Tile::AnimatedOnce(frames, current, _) => frames[*current],
        }
    }

    /// Advances the tile by one animation step.
    pub fn advance(&mut self)
        requires
            old(self)@.wf(),
        ensures
            final(self)@ == old(self)@.step(),
            final(self)@.wf(),
    {
        match self {
            Tile::Static(_, _) => {},
            Tile::Animated(frames, current, _) => {
                if *current < frames.len() - 1 {
                    *current = *current + 1;
                } else {
                    *current = 0;
                }
            },
            Tile::AnimatedOnce(frames, current, tags) => {
                if *current < frames.len() - 1 {
                    *current = *current + 1;
                    if *current == frames.len() - 1 {
                        *tags = tags_without(tags, Tags::Barrier);
                    }
                } else {
                    *tags = tags_without(tags, Tags::Barrier);
                }
            },
        }
    }
}


/// A static tile with one image.
pub open spec fn static_view(id: TextureID, tags: Set<Tags>) -> TileView {
    TileView { kind: TileKind::Static, frames: seq![id], index: 0, tags }
}

/// The tile a maze code stands for, on either layer.
pub open spec fn code_tile(c: char) -> Option<TileView> {
    if c == '0' {
        Some(static_view(0, Set::empty()))
    } else if c == '1' {
        Some(TileView {
            kind: TileKind::Animated,
            frames: seq![13, 14, 15, 16],
            index: 0,
            tags: set![Tags::Barrier],
        })
    } else if c == '2' {
        Some(static_view(1, Set::empty()))
    } else if c == '3' {
        Some(static_view(17, set![Tags::Barrier]))
    } else if c == '4' {
        Some(static_view(PALM_ID, set![Tags::Barrier, Tags::Destroyable]))
    } else if c == '5' {
        Some(static_view(STONE_ID, set![Tags::Barrier, Tags::Destroyable]))
    } else if c == '6' {
        Some(static_view(PILE_ID, set![Tags::Barrier, Tags::Destroyable]))
    } else {
        None
    }
}

/// The one-shot falling sequence that replaces a struck object, by its static texture id.
pub open spec fn falling_view(id: TextureID) -> Option<TileView> {
    if id == PALM_ID {
        Some(TileView { kind: TileKind::AnimatedOnce, frames: seq![2, 3, 4, 5, 6], index: 0, tags: set![Tags::Barrier] })
    } else if id == STONE_ID {
        Some(TileView { kind: TileKind::AnimatedOnce, frames: seq![7, 8, 9, 10, 11, 12], index: 0, tags: set![Tags::Barrier] })
    } else if id == PILE_ID {
        Some(TileView { kind: TileKind::AnimatedOnce, frames: seq![18, 19, 20, 21, 22, 23, 24], index: 0, tags: set![Tags::Barrier] })
    } else {
        None
    }
}

fn no_tags() -> (r: Vec<Tags>)
    ensures
        r@.to_set() == Set::<Tags>::empty(),
{
    let r: Vec<Tags> = Vec::new();
    assert(r@.to_set() =~= Set::<Tags>::empty());
    r
}

fn barrier_only() -> (r: Vec<Tags>)
    ensures
        r@.to_set() == set![Tags::Barrier],
{
    let mut r: Vec<Tags> = Vec::new();
    r.push(Tags::Barrier);
    assert(r@[0] == Tags::Barrier);
    assert(r@.to_set() =~= set![Tags::Barrier]);
    r
}

fn barrier_destroyable() -> (r: Vec<Tags>)
    ensures
        r@.to_set() == set![Tags::Barrier, Tags::Destroyable],
{
    let mut r: Vec<Tags> = Vec::new();
    r.push(Tags::Barrier);
    r.push(Tags::Destroyable);
    assert(r@[0] == Tags::Barrier && r@[1] == Tags::Destroyable);
    assert(r@.to_set() =~= set![Tags::Barrier, Tags::Destroyable]);
    r
}

/// A frame sequence `first, first + 1, ..., first + count - 1`.
fn frame_run(first: TextureID, count: usize) -> (r: Vec<TextureID>)
    requires
        0 <= first,
        first + count <= i32::MAX,
    ensures
        r@.len() == count,
        forall|i: int| 0 <= i < count ==> r@[i] == first + i,
{
    let mut r: Vec<TextureID> = Vec::new();
    let mut i: usize = 0;
    while i < count
        invariant
            i <= count,
            0 <= first,
            first + count <= i32::MAX,
            r@.len() == i,
            forall|j: int| 0 <= j < i ==> r@[j] == first + j,
        decreases count - i,
    {
        r.push(first + i as i32);
        i += 1;
    }
    r
}

/// An empty cell: blank image, no tags.
pub fn new_empty() -> (r: Tile)
    ensures
        r@ == static_view(0, Set::empty()),
{
    Tile::Static(0, no_tags())
}

/// A stone: blocks movement, breaks under a pickaxe.
pub fn new_stone() -> (r: Tile)
    ensures
        r@ == static_view(STONE_ID, set![Tags::Barrier, Tags::Destroyable]),
{
    Tile::Static(STONE_ID, barrier_destroyable())
}

/// A palm: blocks movement, falls under an axe.
pub fn new_palme() -> (r: Tile)
    ensures
        r@ == static_view(PALM_ID, set![Tags::Barrier, Tags::Destroyable]),
{
    Tile::Static(PALM_ID, barrier_destroyable())
}

/// A sand pile: blocks movement, is dug away with a shovel.
pub fn new_pile() -> (r: Tile)
    ensures
        r@ == static_view(PILE_ID, set![Tags::Barrier, Tags::Destroyable]),
{
    Tile::Static(PILE_ID, barrier_destroyable())
}

/// Looping water over the given four frames; it blocks movement.
pub fn new_water(first: TextureID) -> (r: Tile)
    requires
        0 <= first,
        first + 4 <= i32::MAX,
    ensures
        r@.kind == TileKind::Animated,
        r@.frames.len() == 4,
        forall|i: int| 0 <= i < 4 ==> r@.frames[i] == first + i,
        r@.index == 0,
        r@.tags == set![Tags::Barrier],
{
    let frames = frame_run(first, 4);
    Tile::Animated(frames, 0, barrier_only())
}

/// The tile for one maze code, or `None` for a character that is no code.
pub fn tile_for_code(c: char) -> (r: Option<Tile>)
    ensures
        r.is_some() == code_tile(c).is_some(),
        r.is_some() ==> r.unwrap()@ == code_tile(c).unwrap(),
{
    match c {
        '0' => Some(new_empty()),
        '1' => {
            let t = new_water(13);
            assert(t@.frames =~= seq![13, 14, 15, 16]);
            Some(t)
        },
        '2' => Some(Tile::Static(1, no_tags())),
        '3' => Some(Tile::Static(17, barrier_only())),
        '4' => Some(new_palme()),
        '5' => Some(new_stone()),
        '6' => Some(new_pile()),
        _ => None,
    }
}

/// The falling sequence that replaces a struck object with texture `id`, if `id` is one.
pub fn falling_tile(id: TextureID) -> (r: Option<Tile>)
    ensures
        r.is_some() == falling_view(id).is_some(),
        r.is_some() ==> r.unwrap()@ == falling_view(id).unwrap(),
{
    let len: usize = if id == PALM_ID {
        5
    } else if id == STONE_ID {
        6
    } else if id == PILE_ID {
        7
    } else {
        return None;
    };
    let frames = frame_run(id, len);
    if id == PALM_ID {
        assert(frames@ =~= seq![2, 3, 4, 5, 6]);
    } else if id == STONE_ID {
        assert(frames@ =~= seq![7, 8, 9, 10, 11, 12]);
    } else {
        assert(frames@ =~= seq![18, 19, 20, 21, 22, 23, 24]);
    }
    Some(Tile::AnimatedOnce(frames, 0, barrier_only()))
}


/// A looping tile wraps around: after as many animation steps as it has frames
/// it shows the frame it started on again, with its tags untouched.
pub proof fn lemma_animated_wraps(t: TileView)
    requires
        t.kind == TileKind::Animated,
        t.wf(),
    ensures
        t.steps(t.frames.len()) == t,
{
    lemma_animated_index(t, t.frames.len());
}

/// After `k` steps (no more than one round) a looping tile stands `k` frames
/// further on, counted around the end of its sequence.
proof fn lemma_animated_index(t: TileView, k: nat)
    requires
        t.kind == TileKind::Animated,
        t.wf(),
        k <= t.frames.len(),
    ensures
        t.steps(k) == (TileView {
            index: if t.index + k < t.frames.len() { t.index + k } else { t.index + k - t.frames.len() },
            ..t
        }),
    decreases k,
{
    if k > 0 {
        lemma_animated_index(t, (k - 1) as nat);
    }
}

/// A one-shot tile started on its first frame with `n` frames stands on frame
/// `min(k, n - 1)` after `k` steps and never moves past the last one. It keeps its
/// tags while it is short of the last frame and has lost `Barrier` once it is there.
/// (A one-frame tile is on its last frame before any step, yet keeps its tags
/// until the first step: that case is left out.)
pub proof fn lemma_once_holds_last(t: TileView, k: nat)
    requires
        t.kind == TileKind::AnimatedOnce,
        t.index == 0,
        t.wf(),
        k >= 1 || t.frames.len() >= 2,
    ensures
        t.steps(k).kind == TileKind::AnimatedOnce,
        t.steps(k).frames == t.frames,
        t.steps(k).index == if k < t.frames.len() - 1 { k as int } else { t.frames.len() - 1 },
        t.steps(k).tags == if k < t.frames.len() - 1 { t.tags } else { t.tags.remove(Tags::Barrier) },
        t.steps(k).has(Tags::Barrier) <==> (t.has(Tags::Barrier) && t.steps(k).index < t.frames.len() - 1),
    decreases k,
{
    let n = t.frames.len();
    if k == 0 {
    } else if k == 1 && n == 1 {
        assert(t.steps(1) == t.steps(0).step());
    } else {
        lemma_once_holds_last(t, (k - 1) as nat);
        let s = t.steps((k - 1) as nat);
        assert(t.steps(k) == s.step());
        if k - 1 >= n - 1 {
            assert(s.tags.remove(Tags::Barrier) =~= t.tags.remove(Tags::Barrier));
        }
    }
}

} // verus!
