use vstd::prelude::*;

use crate::chamber::ChamberId;
use crate::common::Vec2;

verus! {

pub type ObjectId = u32;

/// How an object is drawn.
#[derive(Clone, Copy, Debug, PartialEq, Eq, Structural)]
pub enum ObjectStyle {
    Blocker,
    Stairs,
    Round,
}

/// The name under which a style is written and read back.
pub open spec fn style_name(s: ObjectStyle) -> Seq<char> {
    match s {
        ObjectStyle::Blocker => "Blocker"@,
        ObjectStyle::Stairs => "Stairs"@,
        ObjectStyle::Round => "Round"@,
    }
}

/// `true` for the names of the styles.
pub open spec fn is_style_name(s: Seq<char>) -> bool {
    s == "Blocker"@ || s == "Stairs"@ || s == "Round"@
}

/// The style named `s`, for a name of a style.
pub open spec fn style_from_name(s: Seq<char>) -> ObjectStyle {
    if s == "Blocker"@ {
        ObjectStyle::Blocker
    } else if s == "Stairs"@ {
        ObjectStyle::Stairs
    } else {
        ObjectStyle::Round
    }
}

impl ObjectStyle {
    /// The style's name.
    pub fn to_str(&self) -> (r: String)
        ensures
            r@ == style_name(*self),
    {
        match self {
            ObjectStyle::Blocker => "Blocker".to_owned(),
            ObjectStyle::Stairs => "Stairs".to_owned(),
            ObjectStyle::Round => "Round".to_owned(),
        }
    }

    /// The style with name `s`.
    pub fn from_str(s: &str) -> (r: ObjectStyle)
        requires
            is_style_name(s@),
        ensures
            style_name(r) == s@,
            r == style_from_name(s@),
    {
        let s = s.to_owned();
        if s == "Blocker".to_owned() {
            ObjectStyle::Blocker
        } else if s == "Stairs".to_owned() {
            ObjectStyle::Stairs
        } else {
            ObjectStyle::Round
        }
    }
}

/// Reading back the name of a style gives the style.
pub proof fn lemma_style_name_roundtrip(s: ObjectStyle, t: ObjectStyle)
    ensures
        is_style_name(style_name(s)),
        style_name(s) == style_name(t) ==> s == t,
        style_from_name(style_name(s)) == s,
{
    reveal_strlit("Blocker");
    reveal_strlit("Stairs");
    reveal_strlit("Round");
    assert("Blocker"@.len() == 7);
    assert("Stairs"@.len() == 6);
    assert("Round"@.len() == 5);
}

/// A marker placed on the map, such as stairs or a chest.
#[derive(Debug)]
pub struct Object {
    pub id: ObjectId,
    pub name: String,
    pub notes: String,
    pub hidden: bool,
    pub style: ObjectStyle,
    pub pos: Vec2<i32>,
    pub part_of: Option<ChamberId>,
}

impl Clone for Object {
    fn clone(&self) -> (r: Self)
        ensures
            r == *self,
    {
        Object {
            id: self.id,
            name: self.name.clone(),
            notes: self.notes.clone(),
            hidden: self.hidden,
            style: self.style,
            pos: self.pos,
            part_of: self.part_of,
        }
    }
}

/// The mathematical content of an object, with its texts as character
/// sequences.
pub struct ObjectView {
    pub id: ObjectId,
    pub name: Seq<char>,
    pub notes: Seq<char>,
    pub hidden: bool,
    pub style: ObjectStyle,
    pub pos: Vec2<i32>,
    pub part_of: Option<ChamberId>,
}

impl View for Object {
    type V = ObjectView;

    open spec fn view(&self) -> ObjectView {
        ObjectView {
            id: self.id,
            name: self.name@,
            notes: self.notes@,
            hidden: self.hidden,
            style: self.style,
            pos: self.pos,
            part_of: self.part_of,
        }
    }
}

impl Object {
    /// A visible blocker at `pos` with id 1, empty name and notes.
    pub fn new(pos: Vec2<i32>, part_of: Option<ChamberId>) -> (r: Object)
        ensures
            r.id == 1,
            r.name@ == Seq::<char>::empty(),
            r.notes@ == Seq::<char>::empty(),
            !r.hidden,
            r.style == ObjectStyle::Blocker,
            r.pos == pos,
            r.part_of == part_of,
    {
        Object {
            id: 1,
            name: String::new(),
            notes: String::new(),
            style: ObjectStyle::Blocker,
            pos: pos,
            hidden: false,
            part_of: part_of,
        }
    }
}

} // verus!
