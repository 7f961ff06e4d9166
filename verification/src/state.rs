//! The container lifecycle as an explicit state machine. Even though `cocoon run`
//! drives it start to finish in one process, modeling the transitions keeps the
//! rules in one readable place and makes the illegal moves testable.
use crate::error::{Error, ErrorView, Result};
use vstd::prelude::*;

verus! {

/// Makes a string of a string slice: `String::from` of the standard library,
/// whose result holds the same characters.
pub assume_specification<'a, 'b>[ <String as From<&'a str>>::from ](s: &'b str) -> (r: String)
    ensures
        r@ == s@,
;

/// Where a container is in its life.
#[derive(Debug, Clone, Copy, PartialEq)]
pub enum State {
    Created,
    Running { pid: i32 },
    Stopped { exit_code: i32 },
}

/// A container and where it is in its life.
#[derive(Debug, Clone, PartialEq)]
pub struct Container {
    pub id: String,
    pub state: State,
}

/// Why a container in state `s` cannot start.
pub open spec fn start_refusal(s: State) -> Option<ErrorView> {
    match s {
        State::Created => None,
        State::Running { .. } => Some(ErrorView::State("container is already running"@)),
        State::Stopped { .. } => Some(ErrorView::State("cannot start a stopped container"@)),
    }
}

/// Why a container in state `s` cannot stop.
pub open spec fn stop_refusal(s: State) -> Option<ErrorView> {
    match s {
        State::Running { .. } => None,
        State::Created => Some(ErrorView::State("cannot stop a container that never started"@)),
        State::Stopped { .. } => Some(ErrorView::State("container is already stopped"@)),
    }
}

/// What can be asked of a container.
pub enum Move {
    Start { pid: i32 },
    Stop { exit_code: i32 },
}

/// The state after a move; a refused move changes nothing.
pub open spec fn moved(s: State, m: Move) -> State {
    match m {
        Move::Start { pid } => if start_refusal(s) is None {
            State::Running { pid }
        } else {
            s
        },
        Move::Stop { exit_code } => if stop_refusal(s) is None {
            State::Stopped { exit_code }
        } else {
            s
        },
    }
}

impl Container {
    /// A freshly created container: namespaces planned, nothing running yet.
    pub fn create<T: Into<String>>(id: T) -> (r: Container)
        ensures
            call_ensures(<T as Into<String>>::into, (id,), r.id),
            r.state == State::Created,
    {
        Container { id: id.into(), state: State::Created }
    }

    /// Created -> Running. Only a created container can start.
    pub fn start(&mut self, pid: i32) -> (r: Result<()>)
        ensures
            final(self).id == old(self).id,
            final(self).state == moved(old(self).state, Move::Start { pid }),
            match (r, start_refusal(old(self).state)) {
                (Ok(_), None) => true,
                (Err(e), Some(why)) => e@ == why,
                _ => false,
            },
    {
        match self.state {
            State::Created => {
                self.state = State::Running { pid };
                Ok(())
            },
            State::Running { .. } => Err(
                Error::State(String::from("container is already running")),
            ),
            State::Stopped { .. } => Err(
                Error::State(String::from("cannot start a stopped container")),
            ),
        }
    }

    /// Running -> Stopped. Only a running container can stop.
    pub fn stop(&mut self, exit_code: i32) -> (r: Result<()>)
        ensures
            final(self).id == old(self).id,
            final(self).state == moved(old(self).state, Move::Stop { exit_code }),
            match (r, stop_refusal(old(self).state)) {
                (Ok(_), None) => true,
                (Err(e), Some(why)) => e@ == why,
                _ => false,
            },
    {
        match self.state {
            State::Running { .. } => {
                self.state = State::Stopped { exit_code };
                Ok(())
            },
            State::Created => Err(
                Error::State(String::from("cannot stop a container that never started")),
            ),
            State::Stopped { .. } => Err(
                Error::State(String::from("container is already stopped")),
            ),
        }
    }

    /// Whether the container runs.
    pub fn is_running(&self) -> (r: bool)
        ensures
            r == (self.state is Running),
    {
        matches!(self.state, State::Running { .. })
    }

    /// The exit code of a stopped container.
    pub fn exit_code(&self) -> (r: Option<i32>)
        ensures
            r == match self.state {
                State::Stopped { exit_code } => Some(exit_code),
                _ => None,
            },
    {
        match self.state {
            State::Stopped { exit_code } => Some(exit_code),
            _ => None,
        }
    }
}

/// The state after a sequence of moves.
pub open spec fn after_moves(s: State, moves: Seq<Move>) -> State
    decreases moves.len(),
{
    if moves.len() == 0 {
        s
    } else {
        moved(after_moves(s, moves.drop_last()), moves.last())
    }
}

/// How far a state is in the life of a container.
pub open spec fn stage(s: State) -> int {
    match s {
        State::Created => 0,
        State::Running { .. } => 1,
        State::Stopped { .. } => 2,
    }
}

/// A container that is started and then stopped ran, and ends with the exit
/// code it was given.
pub proof fn law_happy_path(pid: i32, exit_code: i32)
    ensures
        moved(State::Created, Move::Start { pid }) == (State::Running { pid }),
        moved(State::Running { pid }, Move::Stop { exit_code }) == (State::Stopped { exit_code }),
        after_moves(
            State::Created,
            seq![Move::Start { pid }, Move::Stop { exit_code }],
        ) == (State::Stopped { exit_code }),
{
    let moves = seq![Move::Start { pid }, Move::Stop { exit_code }];
    assert(moves.drop_last() =~= seq![Move::Start { pid }]);
    assert(moves.drop_last().drop_last() =~= Seq::<Move>::empty());
    reveal_with_fuel(after_moves, 3);
}

/// Whatever is asked of a container, it never goes back to an earlier stage, and
/// once stopped it keeps its exit code.
pub proof fn law_life_goes_forward(s: State, moves: Seq<Move>)
    ensures
        stage(after_moves(s, moves)) >= stage(s),
        s is Stopped ==> after_moves(s, moves) == s,
    decreases moves.len(),
{
    if moves.len() > 0 {
        law_life_goes_forward(s, moves.drop_last());
    }
}

/// A container stops at most once and starts at most once: after a move that was
/// carried out, the same kind of move is refused for good.
pub proof fn law_no_move_twice(s: State, later: Seq<Move>, pid: i32, exit_code: i32)
    ensures
        start_refusal(s) is None ==> start_refusal(
            after_moves(moved(s, Move::Start { pid }), later),
        ) is Some,
        stop_refusal(s) is None ==> stop_refusal(
            after_moves(moved(s, Move::Stop { exit_code }), later),
        ) is Some,
{
    law_life_goes_forward(moved(s, Move::Start { pid }), later);
    law_life_goes_forward(moved(s, Move::Stop { exit_code }), later);
}

/// Only a created container starts, and only a running one stops; any other move is
/// refused, with the reason, and changes nothing.
pub proof fn law_moves(s: State, pid: i32, exit_code: i32)
    ensures
        s is Created ==> start_refusal(s) is None && moved(s, Move::Start { pid })
            == (State::Running { pid }),
        s is Running ==> start_refusal(s) == Some(
            ErrorView::State("container is already running"@),
        ),
        s is Stopped ==> start_refusal(s) == Some(
            ErrorView::State("cannot start a stopped container"@),
        ),
        !(s is Created) ==> moved(s, Move::Start { pid }) == s,
        s is Running ==> stop_refusal(s) is None && moved(s, Move::Stop { exit_code })
            == (State::Stopped { exit_code }),
        s is Created ==> stop_refusal(s) == Some(
            ErrorView::State("cannot stop a container that never started"@),
        ),
        s is Stopped ==> stop_refusal(s) == Some(
            ErrorView::State("container is already stopped"@),
        ),
        !(s is Running) ==> moved(s, Move::Stop { exit_code }) == s,
{
}

} // verus!
