//! The two kinds of player that pick a ply from the plies open to them: one
//! that picks at random, and one that is told what a person typed.

use vstd::prelude::*;
use itertools::Itertools;
use rand::{thread_rng, Rng};
use crate::ply::{Ply, PlyView};

verus! {

/// Whether `plies` holds a ply with the value `ply`.
pub open spec fn offers(plies: Seq<Ply>, ply: PlyView) -> bool {
    exists|k: int| 0 <= k < plies.len() && (#[trigger] plies[k])@ == ply
}

/// `rand::Rng::choose` on the generator of the current thread: picks one
/// element of `plies`. Which one is left open; the contract only says that
/// an empty list gives nothing and that anything else gives one of the
/// elements of the list.
#[verifier::external_body]
fn choose_ply(plies: &Vec<Ply>) -> (chosen: Option<&Ply>)
    ensures
        plies@.len() == 0 ==> chosen is None,
        plies@.len() > 0 ==> chosen is Some,
        chosen matches Some(ply) ==> plies@.contains(*ply),
{
    thread_rng().choose(plies)
}

/// The ply picked from `plies` when the generator came up with `chosen`:
/// a copy of it.
pub fn picked(plies: &Vec<Ply>, chosen: Option<&Ply>) -> (ply: Option<Ply>)
    requires
        chosen matches Some(p) ==> plies@.contains(*p),
    ensures
        match chosen {
            Some(p) => ply matches Some(copy) && copy@ == p@ && offers(plies@, copy@),
            None => ply is None,
        },
{
    match chosen {
        Some(p) => {
            proof {
                let k = choose|k: int| 0 <= k < plies@.len() && plies@[k] == *p;
                assert(plies@[k]@ == p@);
            }
            Some(p.clone())
        },
        None => None,
    }
}

/// A player that picks any of the plies open to it.
#[derive(Clone, Copy, Debug)]
pub struct Random {
    pub player_id: i8,
}

impl Random {
    /// One of `plies`, or nothing if there is none.
    pub fn pick(&self, plies: &Vec<Ply>) -> (ply: Option<Ply>)
        ensures
            plies@.len() == 0 ==> ply is None,
            plies@.len() > 0 ==> ply is Some,
            ply matches Some(p) ==> offers(plies@, p@),
    {
        picked(plies, choose_ply(plies))
    }

    /// One of the placements open to the player.
    pub fn get_placement(&mut self, available_places: Vec<Ply>) -> (ply: Ply)
        requires
            available_places@.len() > 0,
        ensures
            offers(available_places@, ply@),
            *final(self) == *old(self),
    {
        match self.pick(&available_places) {
            Some(ply) => ply,
            None => Ply::Root,
        }
    }

    /// One of the moves open to the player.
    pub fn get_move(&mut self, available_moves: Vec<Ply>) -> (ply: Ply)
        requires
            available_moves@.len() > 0,
        ensures
            offers(available_moves@, ply@),
            *final(self) == *old(self),
    {
        match self.pick(&available_moves) {
            Some(ply) => ply,
            None => Ply::Root,
        }
    }

    /// One of the captures open to the player.
    pub fn get_mill(&mut self, available_mills: Vec<Ply>) -> (ply: Ply)
        requires
            available_mills@.len() > 0,
        ensures
            offers(available_mills@, ply@),
            *final(self) == *old(self),
    {
        match self.pick(&available_mills) {
            Some(ply) => ply,
            None => Ply::Root,
        }
    }

    /// Makes the player act as `player_id`.
    pub fn set_player_id(&mut self, player_id: i8)
        ensures
            final(self).player_id == player_id,
    {
        self.player_id = player_id;
    }
}

/// Whether `i` is where the first comma of `s` stands, or the length of `s`
/// if it has none.
pub open spec fn is_first_comma(s: Seq<char>, i: int) -> bool {
    &&& 0 <= i <= s.len()
    &&& (i < s.len() ==> s[i] == ',')
    &&& forall|j: int| 0 <= j < i ==> s[j] != ','
}

/// Where the first comma of `s` stands, or the length of `s` if it has none.
pub open spec fn first_comma(s: Seq<char>) -> int {
    choose|i: int| is_first_comma(s, i)
}

/// The fields of `s`: the stretches of text between its commas. A text
/// without a comma is one field; a text with `n` commas has `n + 1` fields,
/// of which any may be empty.
pub open spec fn comma_fields(s: Seq<char>) -> Seq<Seq<char>>
    decreases s.len(),
{
    let i = first_comma(s);
    if 0 <= i < s.len() {
        seq![s.take(i)] + comma_fields(s.skip(i + 1))
    } else {
        seq![s]
    }
}

/// The two ends of a move typed as `from,to`: the first two fields of the
/// text, if it has a comma.
pub open spec fn typed_move(s: Seq<char>) -> Option<(Seq<char>, Seq<char>)> {
    let fields = comma_fields(s);
    if fields.len() >= 2 {
        Some((fields[0], fields[1]))
    } else {
        None
    }
}

/// There is one place where the first comma stands.
pub proof fn lemma_first_comma(s: Seq<char>, i: int)
    requires
        is_first_comma(s, i),
    ensures
        first_comma(s) == i,
{
    let k = first_comma(s);
    assert(is_first_comma(s, k));
    if k < i {
        assert(s[k] == ',');
    }
    if i < k {
        assert(s[i] == ',');
    }
}

/// `itertools::Itertools::next_tuple` for a pair, on the fields in their
/// order: the first two fields, or nothing if there are fewer than two.
#[verifier::external_body]
fn next_pair(fields: Vec<String>) -> (pair: Option<(String, String)>)
    ensures
        match pair {
            Some(ends) => fields@.len() >= 2 && ends.0@ == fields@[0]@ && ends.1@ == fields@[1]@,
            None => fields@.len() < 2,
        },
{
    fields.into_iter().next_tuple()
}

/// Whether `fields` holds the texts `texts`, in the same order.
pub open spec fn fields_match(fields: Seq<String>, texts: Seq<Seq<char>>) -> bool {
    &&& fields.len() == texts.len()
    &&& forall|k: int| 0 <= k < fields.len() ==> (#[trigger] fields[k])@ == texts[k]
}

/// The fields of `input`: the stretches of text between its commas.
pub fn split_on_commas(input: &str) -> (fields: Vec<String>)
    ensures
        fields_match(fields@, comma_fields(input@)),
{
    let ghost text = input@;
    let length = input.unicode_len();
    let mut fields: Vec<String> = Vec::new();
    let mut start: usize = 0;
    let mut i: usize = 0;
    assert(text.skip(0) =~= text);
    while i < length
        invariant
            text == input@,
            length == text.len(),
            start <= i <= length,
            forall|j: int| start <= j < i ==> text[j] != ',',
            fields@.len() + comma_fields(text.skip(start as int)).len() == comma_fields(text).len(),
            forall|k: int|
                0 <= k < fields@.len() ==> (#[trigger] fields@[k])@ == comma_fields(text)[k],
            forall|k: int|
                0 <= k < comma_fields(text.skip(start as int)).len() ==> comma_fields(
                    text.skip(start as int),
                )[k] == comma_fields(text)[fields@.len() + k],
        decreases length - i,
    {
        if input.get_char(i) == ',' {
            let field = input.substring_char(start, i);
            proof {
                let rest = text.skip(start as int);
                lemma_first_comma(rest, i - start);
                assert(rest.take(i - start) =~= text.subrange(start as int, i as int));
                assert(rest.skip(i - start + 1) =~= text.skip(i + 1));
                let tail = comma_fields(text.skip(i + 1));
                assert(comma_fields(rest) == seq![rest.take(i - start)] + tail);
                assert(comma_fields(rest)[0] == field@);
                assert forall|k: int| 0 <= k < tail.len() implies tail[k] == comma_fields(text)[fields@.len()
                    + 1 + k] by {
                    assert(tail[k] == comma_fields(rest)[k + 1]);
                }
            }
            fields.push(String::from_str(field));
            start = i + 1;
        }
        i += 1;
    }
    let field = input.substring_char(start, length);
    proof {
        let rest = text.skip(start as int);
        lemma_first_comma(rest, rest.len() as int);
        assert(rest =~= text.subrange(start as int, length as int));
        assert(comma_fields(rest) == seq![rest]);
        assert(comma_fields(rest)[0] == comma_fields(text)[fields@.len() as int + 0]);
        assert(field@ == comma_fields(text)[fields@.len() as int]);
    }
    let ghost before = fields@;
    fields.push(String::from_str(field));
    proof {
        assert forall|k: int| 0 <= k < fields@.len() implies (#[trigger] fields@[k])@
            == comma_fields(text)[k] by {
            if k < before.len() {
                assert(fields@[k] == before[k]);
            }
        }
    }
    fields
}

/// Why what a person typed is no ply.
#[derive(Clone, Copy, Debug, PartialEq, Eq, Structural)]
pub enum InputError {
    /// The text is not of the form `from,to`.
    Malformed,
    /// The ply is not among the plies open to the player.
    NotAvailable,
}

/// A player whose plies a person types in.
#[derive(Clone, Copy, Debug)]
pub struct Human {
    pub player_id: i8,
}

impl Human {
    /// The placement of a piece of this player on the position `piece_id`.
    pub fn placement_ply(&self, piece_id: String) -> (ply: Ply)
        ensures
            ply@ == (PlyView::Placement { player_id: self.player_id, piece_id: piece_id@ }),
    {
        Ply::Placement { player_id: self.player_id, piece_id }
    }

    /// The move of a piece of this player between the two positions of `mv`.
    pub fn move_ply(&self, mv: (String, String)) -> (ply: Ply)
        ensures
            ply@ == (PlyView::Move { player_id: self.player_id, from: mv.0@, to: mv.1@ }),
    {
        Ply::Move { player_id: self.player_id, mv }
    }

    /// The capture by this player of the piece on the position `piece_id`.
    pub fn mill_ply(&self, piece_id: String) -> (ply: Ply)
        ensures
            ply@ == (PlyView::Mill { player_id: self.player_id, piece_id: piece_id@ }),
    {
        Ply::Mill { player_id: self.player_id, piece_id }
    }

    /// The two ends of a move typed as `from,to`.
    pub fn parse_move(input: &str) -> (mv: Option<(String, String)>)
        ensures
            match typed_move(input@) {
                Some(ends) => mv matches Some(m) && m.0@ == ends.0 && m.1@ == ends.1,
                None => mv is None,
            },
    {
        next_pair(split_on_commas(input))
    }

    /// The placement that `input` names, if it is among `available_places`.
    pub fn read_placement(&self, input: String, available_places: &Vec<Ply>) -> (outcome: Result<
        Ply,
        InputError,
    >)
        ensures
            match outcome {
                Ok(ply) => ply@ == (PlyView::Placement {
                    player_id: self.player_id,
                    piece_id: input@,
                }) && offers(available_places@, ply@),
                Err(e) => e == InputError::NotAvailable && !offers(
                    available_places@,
                    PlyView::Placement { player_id: self.player_id, piece_id: input@ },
                ),
            },
    {
        let placement = self.placement_ply(input);
        if placement.is_among(available_places) {
            Ok(placement)
        } else {
            Err(InputError::NotAvailable)
        }
    }

    /// The move that `input` names as `from,to`, if it is among
    /// `available_moves`.
    pub fn read_move(&self, input: &str, available_moves: &Vec<Ply>) -> (outcome: Result<
        Ply,
        InputError,
    >)
        ensures
            match typed_move(input@) {
                None => outcome == Err::<Ply, InputError>(InputError::Malformed),
                Some(ends) => {
                    let typed = PlyView::Move {
                        player_id: self.player_id,
                        from: ends.0,
                        to: ends.1,
                    };
                    if offers(available_moves@, typed) {
                        outcome matches Ok(ply) && ply@ == typed
                    } else {
                        outcome == Err::<Ply, InputError>(InputError::NotAvailable)
                    }
                },
            },
    {
        match Human::parse_move(input) {
            Some(ends) => {
                let mv = self.move_ply(ends);
                if mv.is_among(available_moves) {
                    Ok(mv)
                } else {
                    Err(InputError::NotAvailable)
                }
            },
            None => Err(InputError::Malformed),
        }
    }

    /// The capture that `input` names, if it is among `available_mills`.
    pub fn read_mill(&self, input: String, available_mills: &Vec<Ply>) -> (outcome: Result<
        Ply,
        InputError,
    >)
        ensures
            match outcome {
                Ok(ply) => ply@ == (PlyView::Mill { player_id: self.player_id, piece_id: input@ })
                    && offers(available_mills@, ply@),
                Err(e) => e == InputError::NotAvailable && !offers(
                    available_mills@,
                    PlyView::Mill { player_id: self.player_id, piece_id: input@ },
                ),
            },
    {
        let mill = self.mill_ply(input);
        if mill.is_among(available_mills) {
            Ok(mill)
        } else {
            Err(InputError::NotAvailable)
        }
    }

    /// Makes the player act as `player_id`.
    pub fn set_player_id(&mut self, player_id: i8)
        ensures
            final(self).player_id == player_id,
    {
        self.player_id = player_id;
    }
}

} // verus!
