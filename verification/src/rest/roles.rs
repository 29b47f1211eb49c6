//! Creating, editing, reordering and deleting roles.
use vstd::prelude::*;

use crate::json::{entries, obj_get, put, str_value, Json, JsonValue};
use crate::rest::channel_management::{truncate, truncated};
use crate::text::{decimal, decimal_string};
use vstd::std_specs::cmp::PartialEqSpec;

verus! {

/// Discord's cap on a role name, in characters.
pub const MAX_ROLE_NAME_CHARS: usize = 100;

/// What to change about a role; `None` leaves a field alone, and a colour
/// of `Some(None)` clears it.
#[derive(Clone, Debug, PartialEq, Eq)]
pub struct RoleEdit {
    pub name: Option<String>,
    pub color: Option<Option<u32>>,
    pub hoist: Option<bool>,
    pub mentionable: Option<bool>,
    pub permissions: Option<u64>,
}

impl Default for RoleEdit {
    fn default() -> (e: Self)
        ensures
            e.name is None && e.color is None && e.hoist is None && e.mentionable is None && e.permissions is None,
    {
        RoleEdit { name: None, color: None, hoist: None, mentionable: None, permissions: None }
    }
}

/// What a role edit's body holds for a key: each field that changes, the
/// name cut to 100 characters, a cleared colour as zero (Discord's "no
/// colour"), and the permission bits as a decimal string.
pub open spec fn role_edit_field(e: RoleEdit, k: Seq<char>) -> Option<Json> {
    if k == "permissions"@ && e.permissions is Some {
        Some(Json::Str(decimal(e.permissions.unwrap() as nat)))
    } else if k == "mentionable"@ && e.mentionable is Some {
        Some(Json::Bool(e.mentionable.unwrap()))
    } else if k == "hoist"@ && e.hoist is Some {
        Some(Json::Bool(e.hoist.unwrap()))
    } else if k == "color"@ && e.color is Some {
        Some(Json::Num(
            match e.color.unwrap() {
                Some(c) => c as int,
                None => 0,
            },
        ))
    } else if k == "name"@ && e.name is Some {
        Some(Json::Str(truncated(e.name.unwrap()@, MAX_ROLE_NAME_CHARS as nat)))
    } else {
        None
    }
}

impl RoleEdit {
    pub fn is_empty(&self) -> (b: bool)
        ensures
            b == (self.name is None && self.color is None && self.hoist is None && self.mentionable is None
                && self.permissions is None),
    {
        self.name.is_none() && self.color.is_none() && self.hoist.is_none() && self.mentionable.is_none()
            && self.permissions.is_none()
    }

    pub fn to_body(&self) -> (body: JsonValue)
        ensures
            body.model() is Object,
            forall|k: Seq<char>| #[trigger] obj_get(entries(body.model()), k) == role_edit_field(*self, k),
    {
        let mut fields: Vec<(String, JsonValue)> = Vec::new();
        if let Some(name) = &self.name {
            put(&mut fields, "name", JsonValue::Str(truncate(name.as_str(), MAX_ROLE_NAME_CHARS)));
        }
        if let Some(color) = self.color {
            put(
                &mut fields,
                "color",
                JsonValue::UInt(
                    match color {
                        Some(c) => c as u64,
                        None => 0,
                    },
                ),
            );
        }
        if let Some(hoist) = self.hoist {
            put(&mut fields, "hoist", JsonValue::Bool(hoist));
        }
        if let Some(mentionable) = self.mentionable {
            put(&mut fields, "mentionable", JsonValue::Bool(mentionable));
        }
        if let Some(permissions) = self.permissions {
            put(&mut fields, "permissions", JsonValue::Str(decimal_string(permissions)));
        }
        JsonValue::Object(fields)
    }
}

/// The body that creates a role with a name and no permissions.
pub fn create_role_body(name: &str) -> (body: JsonValue)
    ensures
        body.model() is Object,
        forall|k: Seq<char>| #[trigger] obj_get(entries(body.model()), k) == if k == "permissions"@ {
            Some(Json::Str("0"@))
        } else if k == "name"@ {
            Some(Json::Str(truncated(name@, MAX_ROLE_NAME_CHARS as nat)))
        } else {
            None
        },
{
    let mut fields: Vec<(String, JsonValue)> = Vec::new();
    put(&mut fields, "name", JsonValue::Str(truncate(name, MAX_ROLE_NAME_CHARS)));
    put(&mut fields, "permissions", str_value("0"));
    JsonValue::Object(fields)
}

/// The neighbour a row at `index` swaps with when moved, if it can move.
pub open spec fn swap_partner(len: nat, index: int, up: bool) -> Option<int> {
    if index < 0 || index >= len {
        None
    } else if up {
        if index == 0 { None } else { Some(index - 1) }
    } else {
        if index + 1 >= len { None } else { Some(index + 1) }
    }
}

/// A position as Discord takes it: past `u32::MAX` it stays there.
pub open spec fn position_u32(i: int) -> u32 {
    if i <= u32::MAX { i as u32 } else { u32::MAX }
}

/// The new positions after moving a row one step, for two rows that differ:
/// only the two rows that swapped, upper first.
pub open spec fn moves_of<T>(s: Seq<T>, index: int, up: bool) -> Seq<(T, u32)> {
    match swap_partner(s.len(), index, up) {
        Some(j) => {
            let lo = if j < index { j } else { index };
            let hi = if j < index { index } else { j };
            seq![(s[hi], position_u32(lo)), (s[lo], position_u32(hi))]
        },
        None => Seq::empty(),
    }
}

/// The order after the moves are made, each row put at its new position.
pub open spec fn apply_moves<T>(s: Seq<T>, moves: Seq<(T, u32)>) -> Seq<T>
    decreases moves.len(),
{
    if moves.len() == 0 {
        s
    } else {
        apply_moves(s, moves.drop_last()).update(moves.last().1 as int, moves.last().0)
    }
}

/// The new positions after moving the row at `index` up or down one step:
/// only the rows that changed place, none when the row is already at that
/// end (so no request is sent). Two equal rows swapping change nothing.
pub fn moved_positions<T: Copy + PartialEq + PartialEqSpec>(ordered: &[T], index: usize, up: bool) -> (moved: Vec<(T, u32)>)
    ensures
        swap_partner(ordered@.len(), index as int, up) is None ==> moved@.len() == 0,
        swap_partner(ordered@.len(), index as int, up) is Some ==> (moved@.len() == 0 || moved@ == moves_of(ordered@, index as int, up)),
        swap_partner(ordered@.len(), index as int, up) is Some && T::obeys_eq_spec() ==> (moved@.len() == 0 <==> ordered@[index as int].eq_spec(
            &ordered@[swap_partner(ordered@.len(), index as int, up).unwrap()],
        )),
{
    let n = ordered.len();
    if index >= n {
        return Vec::new();
    }
    let partner = if up {
        if index == 0 {
            return Vec::new();
        }
        index - 1
    } else {
        if index + 1 >= n {
            return Vec::new();
        }
        index + 1
    };
    let lo = if partner < index { partner } else { index };
    let hi = if partner < index { index } else { partner };
    if ordered[index] == ordered[partner] {
        return Vec::new();
    }
    let lo_position: u32 = if lo as u64 <= u32::MAX as u64 { lo as u32 } else { u32::MAX };
    let hi_position: u32 = if hi as u64 <= u32::MAX as u64 { hi as u32 } else { u32::MAX };
    let mut moved: Vec<(T, u32)> = Vec::new();
    moved.push((ordered[hi], lo_position));
    moved.push((ordered[lo], hi_position));
    assert(moved@ =~= moves_of(ordered@, index as int, up));
    moved
}

/// Law: moving a row makes exactly the swap with its neighbour, and moving
/// it back the other way restores the original order.
pub proof fn law_up_then_down_restores<T>(s: Seq<T>, index: int)
    requires
        1 <= index < s.len() <= u32::MAX,
    ensures
        apply_moves(s, moves_of(s, index, true)) == s.update(index - 1, s[index]).update(index, s[index - 1]),
        apply_moves(apply_moves(s, moves_of(s, index, true)), moves_of(apply_moves(s, moves_of(s, index, true)), index - 1, false)) == s,
{
    reveal_with_fuel(apply_moves, 3);
    let m = moves_of(s, index, true);
    assert(((index - 1) as u32) as int == index - 1);
    assert((index as u32) as int == index);
    assert(m.drop_last().drop_last() =~= Seq::<(T, u32)>::empty());
    assert(apply_moves(s, m.drop_last().drop_last()) == s);
    let t = apply_moves(s, m);
    assert(t =~= s.update(index - 1, s[index]).update(index, s[index - 1]));
    let m2 = moves_of(t, index - 1, false);
    assert(m2.drop_last().drop_last() =~= Seq::<(T, u32)>::empty());
    assert(apply_moves(t, m2.drop_last().drop_last()) == t);
    assert(apply_moves(t, m2) =~= s);
}

} // verus!
