use vstd::prelude::*;

verus! {

/// A ply as plain mathematical values: ids are sequences of characters.
pub enum PlyView {
    Root,
    Placement { player_id: i8, piece_id: Seq<char> },
    Mill { player_id: i8, piece_id: Seq<char> },
    Move { player_id: i8, from: Seq<char>, to: Seq<char> },
}

impl PlyView {
    /// The acting player, or `0` for the root.
    pub open spec fn player_id(self) -> i8 {
        match self {
            PlyView::Root => 0,
            PlyView::Placement { player_id, .. } => player_id,
            PlyView::Mill { player_id, .. } => player_id,
            PlyView::Move { player_id, .. } => player_id,
        }
    }

    /// Whether both plies are of the same kind and name the same player,
    /// whatever positions they name.
    pub open spec fn same_kind(self, other: PlyView) -> bool {
        &&& self.player_id() == other.player_id()
        &&& (self is Root <==> other is Root)
        &&& (self is Placement <==> other is Placement)
        &&& (self is Mill <==> other is Mill)
        &&& (self is Move <==> other is Move)
    }
}

/// One action of one player: placing a piece, moving one, or taking an
/// opponent's piece after closing a mill. `Root` stands for "no action".
#[derive(Debug)]
pub enum Ply {
    Root,
    Placement { player_id: i8, piece_id: String },
    Mill { player_id: i8, piece_id: String },
    Move { player_id: i8, mv: (String, String) },
}

impl View for Ply {
    type V = PlyView;

    open spec fn view(&self) -> PlyView {
        match *self {
            Ply::Root => PlyView::Root,
            Ply::Placement { player_id, piece_id } => PlyView::Placement {
                player_id,
                piece_id: piece_id@,
            },
            Ply::Mill { player_id, piece_id } => PlyView::Mill { player_id, piece_id: piece_id@ },
            Ply::Move { player_id, mv } => PlyView::Move { player_id, from: mv.0@, to: mv.1@ },
        }
    }
}

impl Clone for Ply {
    fn clone(&self) -> (copy: Self)
        ensures
            copy@ == self@,
    {
        match self {
            Ply::Root => Ply::Root,
            Ply::Placement { player_id, piece_id } => Ply::Placement {
                player_id: *player_id,
                piece_id: piece_id.clone(),
            },
            Ply::Mill { player_id, piece_id } => Ply::Mill {
                player_id: *player_id,
                piece_id: piece_id.clone(),
            },
            Ply::Move { player_id, mv } => Ply::Move {
                player_id: *player_id,
                mv: (mv.0.clone(), mv.1.clone()),
            },
        }
    }
}

impl PartialEq for Ply {
    fn eq(&self, other: &Ply) -> (equal: bool) {
        match (self, other) {
            (Ply::Root, Ply::Root) => true,
            (
                Ply::Placement { player_id: p, piece_id: a },
                Ply::Placement { player_id: q, piece_id: b },
            ) => *p == *q && *a == *b,
            (Ply::Mill { player_id: p, piece_id: a }, Ply::Mill { player_id: q, piece_id: b }) => *p
                == *q && *a == *b,
            (Ply::Move { player_id: p, mv: a }, Ply::Move { player_id: q, mv: b }) => *p == *q
                && a.0 == b.0 && a.1 == b.1,
            _ => false,
        }
    }
}

impl Eq for Ply {}

impl vstd::std_specs::cmp::PartialEqSpecImpl for Ply {
    open spec fn obeys_eq_spec() -> bool {
        true
    }

    open spec fn eq_spec(&self, other: &Ply) -> bool {
        self@ == other@
    }
}

impl Ply {
    /// The acting player, or `0` for `Root`.
    pub fn player_id(&self) -> (id: i8)
        ensures
            id == self@.player_id(),
    {
        match self {
            Ply::Root => 0,
            Ply::Placement { player_id, .. } => *player_id,
            Ply::Mill { player_id, .. } => *player_id,
            Ply::Move { player_id, .. } => *player_id,
        }
    }

    /// The id of the position that a placement fills or a capture empties.
    pub fn piece_id(&self) -> (id: String)
        requires
            self@ is Placement || self@ is Mill,
        ensures
            self@ matches PlyView::Placement { piece_id, .. } ==> id@ == piece_id,
            self@ matches PlyView::Mill { piece_id, .. } ==> id@ == piece_id,
    {
        match self {
            Ply::Placement { piece_id, .. } => piece_id.clone(),
            Ply::Mill { piece_id, .. } => piece_id.clone(),
            _ => String::new(),
        }
    }

    /// The ids of the origin and the destination of a move.
    pub fn mv(&self) -> (ends: (String, String))
        requires
            self@ is Move,
        ensures
            self@ matches PlyView::Move { from, to, .. } && ends.0@ == from && ends.1@ == to,
    {
        match self {
            Ply::Move { mv, .. } => (mv.0.clone(), mv.1.clone()),
            _ => (String::new(), String::new()),
        }
    }

    /// Whether the ply is a capture.
    pub fn is_mill(&self) -> (mill: bool)
        ensures
            mill == (self@ is Mill),
    {
        match self {
            Ply::Mill { .. } => true,
            _ => false,
        }
    }

    /// Whether `plies` holds a ply equal to this one.
    pub fn is_among(&self, plies: &Vec<Ply>) -> (found: bool)
        ensures
            found == exists|k: int| 0 <= k < plies@.len() && (#[trigger] plies@[k])@ == self@,
    {
        let mut k: usize = 0;
        while k < plies.len()
            invariant
                k <= plies@.len(),
                forall|j: int| 0 <= j < k ==> (#[trigger] plies@[j])@ != self@,
            decreases plies@.len() - k,
        {
            if plies[k] == *self {
                assert((plies@[k as int])@ == self@);
                return true;
            }
            k += 1;
        }
        false
    }
}

} // verus!
