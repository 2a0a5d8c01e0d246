//! Routing of incoming messages: which handler a read or write of an
//! attribute index goes to, and what is answered where none is named.

use crate::database::{dispatch_view, CompiledDatabase};
use crate::laws::{
    lemma_dispatch_sound, lemma_name_indices_increasing, lemma_names_prefix,
    lemma_routed_in_dispatch, lemma_value_record, name_position,
};
use crate::layout::{lemma_table_step, table_dispatch, value_index};
use crate::model::{Access, ServiceView};
use crate::text::str_eq;
use vstd::prelude::*;

verus! {

/// The messages that the stack leaves to the application.
#[derive(Debug, Clone, Copy, PartialEq, Eq, Structural)]
pub enum Message {
    /// A value was written.
    ValueWrite,
    /// The length of an attribute is asked for before a long write.
    AttributeInfoRequest,
    /// A value is asked for.
    ValueRequest,
    /// Anything else.
    Other,
}

/// The status of an answer that no handler gives.
#[derive(Debug, Clone, Copy, PartialEq, Eq, Structural)]
pub enum Status {
    WriteNotPermitted,
    ApplicationError,
}

/// What is done with a message.
#[derive(Debug, Clone, PartialEq, Eq)]
pub enum Route {
    /// The named handler is called with the message's parameters.
    Handler(String),
    /// An answer with this status and this length is sent.
    Respond { status: Status, length: u16 },
    /// Nothing is done.
    Ignore,
}

/// A route, with the handler's name as characters.
pub enum RouteView {
    Handler(Seq<char>),
    Respond { status: Status, length: u16 },
    Ignore,
}

impl View for Route {
    type V = RouteView;

    open spec fn view(&self) -> RouteView {
        match self {
            Route::Handler(h) => RouteView::Handler(h@),
            Route::Respond { status, length } => RouteView::Respond {
                status: *status,
                length: *length,
            },
            Route::Ignore => RouteView::Ignore,
        }
    }
}

/// The handler of the first entry, from `from` on, with the index.
pub open spec fn first_match(list: Seq<(int, Seq<char>)>, from: int, index: int) -> Option<
    Seq<char>,
>
    decreases list.len() - from,
{
    if from < 0 || from >= list.len() {
        None
    } else if list[from].0 == index {
        Some(list[from].1)
    } else {
        first_match(list, from + 1, index)
    }
}

/// What is done with a message about an attribute index: a write goes
/// to its handler or is ignored, a read goes to its handler or is
/// answered with an application error, and a request for attribute
/// information is always answered with "write not permitted"; every
/// answer has length zero.
pub open spec fn routed_to(
    read_handlers: Seq<(int, Seq<char>)>,
    write_handlers: Seq<(int, Seq<char>)>,
    message: Message,
    index: int,
) -> RouteView {
    match message {
        Message::ValueWrite => match first_match(write_handlers, 0, index) {
            Some(h) => RouteView::Handler(h),
            None => RouteView::Ignore,
        },
        Message::AttributeInfoRequest => RouteView::Respond { status: Status::WriteNotPermitted, length: 0 },
        Message::ValueRequest => match first_match(read_handlers, 0, index) {
            Some(h) => RouteView::Handler(h),
            None => RouteView::Respond { status: Status::ApplicationError, length: 0 },
        },
        Message::Other => RouteView::Ignore,
    }
}

/// The index of the last entry, among the first `n`, with the name: a
/// later characteristic takes the place of an earlier one of its name.
pub open spec fn last_named(map: Seq<(Seq<char>, int)>, n: int, name: Seq<char>) -> Option<int>
    decreases n,
{
    if n <= 0 || n > map.len() {
        None
    } else if map[n - 1].0 == name {
        Some(map[n - 1].1)
    } else {
        last_named(map, n - 1, name)
    }
}

/// Looks an index up in a dispatch list.
pub fn find_handler(list: &Vec<(usize, String)>, index: usize) -> (r: Option<String>)
    ensures
        match r {
            Some(h) => first_match(dispatch_view(list@), 0, index as int) == Some(h@),
            None => first_match(dispatch_view(list@), 0, index as int).is_none(),
        },
{
    let mut i: usize = 0;
    while i < list.len()
        invariant
            0 <= i <= list.len(),
            first_match(dispatch_view(list@), 0, index as int) == first_match(
                dispatch_view(list@),
                i as int,
                index as int,
            ),
        decreases list.len() - i,
    {
        if list[i].0 == index {
            return Some(list[i].1.clone());
        }
        i += 1;
    }
    None
}

impl CompiledDatabase {
    /// The index of the value record of the characteristic with a name;
    /// of the last one declared, where several have the name.
    pub fn value_index_of(&self, name: &str) -> (r: Option<usize>)
        ensures
            match r {
                Some(index) => last_named(
                    self@.char_idx_map,
                    self@.char_idx_map.len() as int,
                    name@,
                ) == Some(index as int),
                None => last_named(
                    self@.char_idx_map,
                    self@.char_idx_map.len() as int,
                    name@,
                ).is_none(),
            },
    {
        let mut n: usize = self.char_idx_map.len();
        while n > 0
            invariant
                0 <= n <= self.char_idx_map.len(),
                last_named(self@.char_idx_map, self@.char_idx_map.len() as int, name@)
                    == last_named(self@.char_idx_map, n as int, name@),
            decreases n,
        {
            if str_eq(self.char_idx_map[n - 1].0.as_str(), name) {
                return Some(self.char_idx_map[n - 1].1);
            }
            n -= 1;
        }
        None
    }

    /// Decides what is done with a message about an attribute index.
    pub fn route(&self, message: Message, index: usize) -> (r: Route)
        ensures
            r@ == routed_to(self@.read_handlers, self@.write_handlers, message, index as int),
    {
        match message {
            Message::ValueWrite => match find_handler(&self.write_handlers, index) {
                Some(h) => Route::Handler(h),
                None => Route::Ignore,
            },
            Message::AttributeInfoRequest => Route::Respond { status: Status::WriteNotPermitted, length: 0 },
            Message::ValueRequest => match find_handler(&self.read_handlers, index) {
                Some(h) => Route::Handler(h),
                None => Route::Respond { status: Status::ApplicationError, length: 0 },
            },
            Message::Other => Route::Ignore,
        }
    }
}

/// The first match of an index that some entry has is the handler of an
/// entry with that index; an index that no entry has matches nothing.
pub proof fn lemma_first_match(list: Seq<(int, Seq<char>)>, from: int, index: int)
    requires
        0 <= from,
    ensures
        match first_match(list, from, index) {
            Some(h) => exists|k: int| from <= k < list.len() && #[trigger] list[k] == (index, h),
            None => forall|k: int| from <= k < list.len() ==> (#[trigger] list[k]).0 != index,
        },
    decreases list.len() - from,
{
    if from < list.len() {
        if list[from].0 == index {
            assert(list[from] == (index, list[from].1));
        } else {
            lemma_first_match(list, from + 1, index);
            match first_match(list, from + 1, index) {
                Some(h) => {
                    let k = choose|k: int|
                        from + 1 <= k < list.len() && #[trigger] list[k] == (index, h);
                    assert(list[k] == (index, h));
                },
                None => {
                    assert forall|k: int| from <= k < list.len() implies (#[trigger] list[k]).0
                        != index by {
                        if k > from {
                            assert(from + 1 <= k);
                        }
                    }
                },
            }
        }
    }
}

/// Two characteristics never share a place in the name map.
pub proof fn lemma_name_position_injective(
    ss: Seq<ServiceView>,
    s1: int,
    c1: int,
    s2: int,
    c2: int,
)
    requires
        0 <= s1 < ss.len(),
        0 <= c1 < ss[s1].characteristics.len(),
        0 <= s2 < ss.len(),
        0 <= c2 < ss[s2].characteristics.len(),
        name_position(ss, s1, c1) == name_position(ss, s2, c2),
    ensures
        s1 == s2,
        c1 == c2,
{
    if s1 < s2 {
        lemma_table_step(ss, s1);
        lemma_names_prefix(ss.take(s2), s1 + 1);
        assert(ss.take(s2).take(s1 + 1) =~= ss.take(s1 + 1));
    } else if s2 < s1 {
        lemma_table_step(ss, s2);
        lemma_names_prefix(ss.take(s1), s2 + 1);
        assert(ss.take(s1).take(s2 + 1) =~= ss.take(s2 + 1));
    }
}

/// Two characteristics never share a value index.
pub proof fn lemma_value_index_injective(
    ss: Seq<ServiceView>,
    s1: int,
    c1: int,
    s2: int,
    c2: int,
)
    requires
        0 <= s1 < ss.len(),
        0 <= c1 < ss[s1].characteristics.len(),
        0 <= s2 < ss.len(),
        0 <= c2 < ss[s2].characteristics.len(),
        value_index(ss, s1, c1) == value_index(ss, s2, c2),
    ensures
        s1 == s2,
        c1 == c2,
{
    lemma_value_record(ss, s1, c1);
    lemma_value_record(ss, s2, c2);
    let first = name_position(ss, s1, c1);
    let second = name_position(ss, s2, c2);
    if first < second {
        lemma_name_indices_increasing(ss, first, second);
    } else if second < first {
        lemma_name_indices_increasing(ss, second, first);
    }
    lemma_name_position_injective(ss, s1, c1, s2, c2);
}

/// In a compiled table, an access to the value of a characteristic goes
/// to the handler that the characteristic names for it, where its
/// permissions grant the access, and finds no handler otherwise.
pub proof fn lemma_route_of_value(ss: Seq<ServiceView>, access: Access, s: int, c: int)
    requires
        0 <= s < ss.len(),
        0 <= c < ss[s].characteristics.len(),
    ensures
        first_match(table_dispatch(ss, access), 0, value_index(ss, s, c)) == if ss[s].characteristics[c].routes(
            access,
        ) {
            ss[s].characteristics[c].handler(access)
        } else {
            None
        },
{
    let list = table_dispatch(ss, access);
    let index = value_index(ss, s, c);
    lemma_first_match(list, 0, index);
    if ss[s].characteristics[c].routes(access) {
        lemma_routed_in_dispatch(ss, s, c, access);
        let entry = (index, ss[s].characteristics[c].handler(access).unwrap());
        let k = choose|k: int| 0 <= k < list.len() && list[k] == entry;
        assert(list[k].0 == index);
    }
    if first_match(list, 0, index).is_some() {
        let h = first_match(list, 0, index).unwrap();
        let k = choose|k: int| 0 <= k < list.len() && #[trigger] list[k] == (index, h);
        let at = lemma_dispatch_sound(ss, access, k);
        lemma_value_index_injective(ss, at.0, at.1, s, c);
    }
}

} // verus!
