//! Plain per-entity components: a display name, a tag, visibility and a
//! render layer.

use vstd::prelude::*;

verus! {

/// A display name for an entity.
#[derive(Debug, Clone, PartialEq, Eq, Hash)]
pub struct Name {
    name: String,
}

impl View for Name {
    type V = Seq<char>;

    closed spec fn view(&self) -> Seq<char> {
        self.name@
    }
}

impl Name {
    pub fn new(name: &str) -> (r: Name)
        ensures
            r@ == name@,
    {
        Name { name: String::from_str(name) }
    }

    pub fn as_str(&self) -> (r: &str)
        ensures
            r@ == self@,
    {
        self.name.as_str()
    }

    pub fn set(&mut self, name: &str)
        ensures
            final(self)@ == name@,
    {
        self.name = String::from_str(name);
    }

    pub fn is_empty(&self) -> (r: bool)
        ensures
            r == (self@.len() == 0),
    {
        self.name.as_str().is_empty()
    }

    /// Length of the name in bytes of its UTF-8 encoding.
    pub fn len(&self) -> (r: usize)
        ensures
            r == vstd::utf8::encode_utf8(self@).len() as usize,
    {
        self.name.as_str().len()
    }

    /// The name as displayed.
    pub fn to_string(&self) -> (r: String)
        ensures
            r@ == self@,
    {
        String::from_str(self.name.as_str())
    }
}

/// A free-form label used to group entities.
#[derive(Debug, Clone, PartialEq, Eq, Hash)]
pub struct Tag {
    tag: String,
}

impl View for Tag {
    type V = Seq<char>;

    closed spec fn view(&self) -> Seq<char> {
        self.tag@
    }
}

impl Tag {
    pub fn new(tag: &str) -> (r: Tag)
        ensures
            r@ == tag@,
    {
        Tag { tag: String::from_str(tag) }
    }

    pub fn as_str(&self) -> (r: &str)
        ensures
            r@ == self@,
    {
        self.tag.as_str()
    }

    pub fn set(&mut self, tag: &str)
        ensures
            final(self)@ == tag@,
    {
        self.tag = String::from_str(tag);
    }

    /// Whether the tag is exactly `other`.
    pub fn matches(&self, other: &str) -> (r: bool)
        ensures
            r == (self@ == other@),
    {
        self.tag == String::from_str(other)
    }

    /// The tag as displayed.
    pub fn to_string(&self) -> (r: String)
        ensures
            r@ == self@,
    {
        String::from_str(self.tag.as_str())
    }
}

/// Whether an entity is drawn, or takes that from its parent.
#[derive(Debug, Clone, Copy, PartialEq, Eq, Hash, Structural)]
pub enum Visibility {
    Visible,
    Hidden,
    Inherited,
}

impl Visibility {
    pub fn is_visible(&self) -> (r: bool)
        ensures
            r == (*self == Visibility::Visible),
    {
        matches!(self, Visibility::Visible)
    }

    pub fn is_hidden(&self) -> (r: bool)
        ensures
            r == (*self == Visibility::Hidden),
    {
        matches!(self, Visibility::Hidden)
    }

    pub fn is_inherited(&self) -> (r: bool)
        ensures
            r == (*self == Visibility::Inherited),
    {
        matches!(self, Visibility::Inherited)
    }

    /// Swaps visible and hidden; inherited stays inherited.
    pub fn toggle(&mut self)
        ensures
            *final(self) == match *old(self) {
                Visibility::Visible => Visibility::Hidden,
                Visibility::Hidden => Visibility::Visible,
                Visibility::Inherited => Visibility::Inherited,
            },
    {
        *self = match *self {
            Visibility::Visible => Visibility::Hidden,
            Visibility::Hidden => Visibility::Visible,
            Visibility::Inherited => Visibility::Inherited,
        };
    }
}

impl Default for Visibility {
    fn default() -> (r: Visibility)
        ensures
            r == Visibility::Visible,
    {
        Visibility::Visible
    }
}

/// Draw order: higher layers are drawn over lower ones.
#[derive(Debug, Clone, Copy, PartialEq, Eq, PartialOrd, Ord, Hash, Structural)]
pub struct Layer(pub i32);

impl Layer {
    pub fn new(layer: i32) -> (r: Layer)
        ensures
            r.0 == layer,
    {
        Layer(layer)
    }

    pub fn value(&self) -> (r: i32)
        ensures
            r == self.0,
    {
        self.0
    }

    pub fn set(&mut self, layer: i32)
        ensures
            final(self).0 == layer,
    {
        self.0 = layer;
    }

    pub fn increase(&mut self, delta: i32)
        requires
            i32::MIN <= old(self).0 + delta <= i32::MAX,
        ensures
            final(self).0 == old(self).0 + delta,
    {
        self.0 = self.0 + delta;
    }

    pub fn decrease(&mut self, delta: i32)
        requires
            i32::MIN <= old(self).0 - delta <= i32::MAX,
        ensures
            final(self).0 == old(self).0 - delta,
    {
        self.0 = self.0 - delta;
    }
}

impl Default for Layer {
    fn default() -> (r: Layer)
        ensures
            r.0 == 0,
    {
        Layer(0)
    }
}

} // verus!
