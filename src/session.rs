use vstd::prelude::*;

use crate::filter::{filter, filter_spec};
use crate::level::{Direction, Level};
use crate::sentances::{views, Sentance};
use crate::table::LevelTable;

verus! {

/// Relies on rand's `Rng::gen_range` on `thread_rng()`: a value drawn
/// uniformly from `0..count`, which it panics on when the range is empty.
#[verifier::external_body]
fn random_below(count: usize) -> (r: usize)
    requires
        count > 0,
    ensures
        r < count,
{
    rand::Rng::gen_range(&mut rand::thread_rng(), 0..count)
}

/// Why no sentence could be selected.
#[derive(Clone, Copy, Debug, PartialEq, Eq, Structural)]
pub enum SelectError {
    /// The working set holds no sentence.
    EmptyWorkingSet,
}

/// The index that the draw `roll` selects among `count` entries.
pub fn pick_index(count: usize, roll: usize) -> (r: Result<usize, SelectError>)
    ensures
        count == 0 ==> r == Err::<usize, SelectError>(SelectError::EmptyWorkingSet),
        count > 0 ==> r == Ok::<usize, SelectError>((roll % count) as usize),
{
    if count == 0 {
        Err(SelectError::EmptyWorkingSet)
    } else {
        Ok(roll % count)
    }
}

/// An index drawn uniformly among `count` entries.
pub fn select_random(count: usize) -> (r: Result<usize, SelectError>)
    ensures
        count == 0 <==> r is Err,
        r matches Err(e) ==> e == SelectError::EmptyWorkingSet,
        r matches Ok(i) ==> i < count,
{
    if count == 0 {
        return Err(SelectError::EmptyWorkingSet);
    }
    Ok(random_below(count))
}

/// A user action on the study session.
#[derive(Clone, Copy, Debug, PartialEq, Eq, Structural)]
pub enum JapaneseSentanceAppMessage {
    /// Reveal the translation, or move on once it is revealed.
    RevealOrNext,
    /// Select a new level.
    PickedLevel(Level),
}

/// A study session: the corpus, the pairs that the selected level lets
/// through, the current pair among them and whether its translation shows.
pub struct JapaneseSentanceApp {
    pub level_table: LevelTable,
    pub sentances: Vec<Sentance>,
    pub filtered_sentances: Vec<Sentance>,
    pub current: usize,
    pub revealed: bool,
    pub level: Level,
    pub direction: Direction,
}

impl JapaneseSentanceApp {
    /// The working set is the filtered corpus, and the current index lies in
    /// it whenever it is not empty.
    pub open spec fn wf(&self) -> bool {
        &&& views(self.filtered_sentances@) == filter_spec(
            views(self.sentances@),
            self.level_table@,
            self.level,
            self.direction,
        )
        &&& self.filtered_sentances.len() > 0 ==> self.current < self.filtered_sentances.len()
    }

    /// A session over `sentances` at `level`, hidden, at a random pair of
    /// the working set (an empty working set leaves no current pair).
    pub fn new(level_table: LevelTable, sentances: Vec<Sentance>, level: Level, direction: Direction) -> (r: Self)
        ensures
            r.wf(),
            r.level_table@ == level_table@,
            r.sentances@ == sentances@,
            r.level == level,
            r.direction == direction,
            !r.revealed,
    {
        let mut app = JapaneseSentanceApp {
            level_table,
            sentances,
            filtered_sentances: Vec::new(),
            current: 0,
            revealed: false,
            level,
            direction,
        };
        let _ = app.apply_filter();
        app
    }

    /// Recomputes the working set for the selected level and direction and
    /// draws a new current pair from it; fails when the working set is empty.
    pub fn apply_filter(&mut self) -> (r: Result<(), SelectError>)
        ensures
            final(self).wf(),
            final(self).revealed == old(self).revealed,
            final(self).level_table@ == old(self).level_table@,
            final(self).sentances@ == old(self).sentances@,
            final(self).level == old(self).level,
            final(self).direction == old(self).direction,
            r is Err <==> final(self).filtered_sentances.len() == 0,
            r matches Err(e) ==> e == SelectError::EmptyWorkingSet,
    {
        self.filtered_sentances = filter(&self.sentances, &self.level_table, self.level, self.direction);
        match select_random(self.filtered_sentances.len()) {
            Ok(i) => {
                self.current = i;
                Ok(())
            },
            Err(e) => {
                self.current = 0;
                Err(e)
            },
        }
    }

    /// Selects a new level and direction; the working set is recomputed and
    /// the session restarts hidden at a random pair of it. Fails when no pair
    /// passes at the new level.
    pub fn set_level(&mut self, level: Level, direction: Direction) -> (r: Result<(), SelectError>)
        ensures
            final(self).wf(),
            !final(self).revealed,
            final(self).level == level,
            final(self).direction == direction,
            final(self).level_table@ == old(self).level_table@,
            final(self).sentances@ == old(self).sentances@,
            r is Err <==> final(self).filtered_sentances.len() == 0,
            r matches Err(e) ==> e == SelectError::EmptyWorkingSet,
    {
        self.level = level;
        self.direction = direction;
        self.revealed = false;
        self.apply_filter()
    }

    /// The reveal/next transition with the draw `roll`. A hidden pair is
    /// revealed in place. A revealed one is replaced, hidden, by the pair that
    /// `roll` selects in the working set; with an empty working set that fails
    /// and nothing changes.
    pub fn on_primary_action_with(&mut self, roll: usize) -> (r: Result<(), SelectError>)
        requires
            old(self).wf(),
        ensures
            final(self).wf(),
            final(self).level_table@ == old(self).level_table@,
            final(self).sentances@ == old(self).sentances@,
            final(self).filtered_sentances@ == old(self).filtered_sentances@,
            final(self).level == old(self).level,
            final(self).direction == old(self).direction,
            !old(self).revealed ==> r is Ok && final(self).revealed && final(self).current
                == old(self).current,
            old(self).revealed && old(self).filtered_sentances.len() == 0 ==> r == Err::<
                (),
                SelectError,
            >(SelectError::EmptyWorkingSet) && final(self).revealed && final(self).current
                == old(self).current,
            old(self).revealed && old(self).filtered_sentances.len() > 0 ==> r is Ok
                && !final(self).revealed && final(self).current == roll
                % old(self).filtered_sentances.len(),
    {
        if !self.revealed {
            self.revealed = true;
            return Ok(());
        }
        match pick_index(self.filtered_sentances.len(), roll) {
            Ok(i) => {
                self.current = i;
                self.revealed = false;
                Ok(())
            },
            Err(e) => Err(e),
        }
    }

    /// The reveal/next transition, drawing the next pair uniformly from the
    /// working set.
    pub fn on_primary_action(&mut self) -> (r: Result<(), SelectError>)
        requires
            old(self).wf(),
        ensures
            final(self).wf(),
            final(self).level_table@ == old(self).level_table@,
            final(self).sentances@ == old(self).sentances@,
            final(self).filtered_sentances@ == old(self).filtered_sentances@,
            final(self).level == old(self).level,
            final(self).direction == old(self).direction,
            !old(self).revealed ==> r is Ok && final(self).revealed && final(self).current
                == old(self).current,
            old(self).revealed && old(self).filtered_sentances.len() == 0 ==> r == Err::<
                (),
                SelectError,
            >(SelectError::EmptyWorkingSet) && final(self).revealed && final(self).current
                == old(self).current,
            old(self).revealed && old(self).filtered_sentances.len() > 0 ==> r is Ok
                && !final(self).revealed && final(self).current
                < final(self).filtered_sentances.len(),
    {
        if self.revealed && self.filtered_sentances.len() > 0 {
            let roll = random_below(self.filtered_sentances.len());
            self.on_primary_action_with(roll)
        } else {
            self.on_primary_action_with(0)
        }
    }

    /// Handles a user action: `RevealOrNext` drives the reveal/next
    /// transition, `PickedLevel` selects that level in the same direction.
    pub fn update(&mut self, message: JapaneseSentanceAppMessage) -> (r: Result<(), SelectError>)
        requires
            old(self).wf(),
        ensures
            final(self).wf(),
            final(self).level_table@ == old(self).level_table@,
            final(self).sentances@ == old(self).sentances@,
            final(self).direction == old(self).direction,
            message == JapaneseSentanceAppMessage::RevealOrNext ==> final(self).level
                == old(self).level && final(self).filtered_sentances@
                == old(self).filtered_sentances@ && (!old(self).revealed ==> r is Ok
                && final(self).revealed && final(self).current == old(self).current) && (
            old(self).revealed ==> (r is Err <==> old(self).filtered_sentances.len() == 0) && (
            r is Ok ==> !final(self).revealed)),
            message matches JapaneseSentanceAppMessage::PickedLevel(l) ==> final(self).level == l
                && !final(self).revealed && (r is Err <==> final(self).filtered_sentances.len()
                == 0),
            r matches Err(e) ==> e == SelectError::EmptyWorkingSet,
    {
        match message {
            JapaneseSentanceAppMessage::RevealOrNext => self.on_primary_action(),
            JapaneseSentanceAppMessage::PickedLevel(l) => {
                let d = self.direction;
                self.set_level(l, d)
            },
        }
    }

    /// The current pair, or `None` when the working set is empty.
    pub fn current_sentance(&self) -> (r: Option<&Sentance>)
        requires
            self.wf(),
        ensures
            self.filtered_sentances.len() == 0 <==> r is None,
            r matches Some(s) ==> s@ == self.filtered_sentances@[self.current as int]@,
    {
        if self.filtered_sentances.len() == 0 {
            None
        } else {
            Some(&self.filtered_sentances[self.current])
        }
    }

    /// Whether the translation of the current pair shows.
    pub fn is_revealed(&self) -> (r: bool)
        ensures
            r == self.revealed,
    {
        self.revealed
    }
}

} // verus!
