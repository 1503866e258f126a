//! The attributes of an element, as pairs of a qualified name and a
//! value, in the order in which the element states them.

use vstd::prelude::*;
use crate::input::same_text;

verus! {

/// The name of an attribute: prefix, namespace and local name.
#[derive(Debug)]
pub struct QualifiedName {
    pub prefix: Option<String>,
    /// The namespace; empty for an attribute in no namespace.
    pub ns: String,
    pub local: String,
}

/// A `QualifiedName` with its parts as sequences of characters.
pub ghost struct QualifiedNameView {
    pub prefix: Option<Seq<char>>,
    pub ns: Seq<char>,
    pub local: Seq<char>,
}

/// The view of a text that may be absent.
pub open spec fn text_view(text: Option<String>) -> Option<Seq<char>> {
    match text {
        Some(t) => Some(t@),
        None => None,
    }
}

impl View for QualifiedName {
    type V = QualifiedNameView;

    open spec fn view(&self) -> QualifiedNameView {
        QualifiedNameView { prefix: text_view(self.prefix), ns: self.ns@, local: self.local@ }
    }
}

impl QualifiedNameView {
    /// The name is `local` in the namespace `ns`, under whatever prefix.
    pub open spec fn is(self, ns: Seq<char>, local: Seq<char>) -> bool {
        self.ns == ns && self.local == local
    }
}

/// A copy of a text that may be absent.
fn duplicate_text(text: &Option<String>) -> (copy: Option<String>)
    ensures
        copy == *text,
{
    match text {
        Some(t) => Some(t.clone()),
        None => None,
    }
}

impl Clone for QualifiedName {
    fn clone(&self) -> (copy: QualifiedName)
        ensures
            copy == *self,
    {
        QualifiedName {
            prefix: duplicate_text(&self.prefix),
            ns: self.ns.clone(),
            local: self.local.clone(),
        }
    }
}

impl QualifiedName {
    /// The qualified name of an attribute as an XML parser reports it.
    /// An attribute for which the parser reports no namespace is in the
    /// empty namespace.
    pub fn new(prefix: Option<&str>, uri: Option<&str>, localname: &str) -> (name: QualifiedName)
        ensures
            name@ == make_qual_name(
                match prefix {
                    Some(p) => Some(p@),
                    None => None,
                },
                match uri {
                    Some(u) => Some(u@),
                    None => None,
                },
                localname@,
            ),
    {
        QualifiedName {
            prefix: match prefix {
                Some(p) => Some(p.to_owned()),
                None => None,
            },
            ns: match uri {
                Some(u) => u.to_owned(),
                None => String::new(),
            },
            local: localname.to_owned(),
        }
    }

    /// Whether the name is `local` in the namespace `ns`.
    pub fn is(&self, ns: &str, local: &str) -> (b: bool)
        ensures
            b == self@.is(ns@, local@),
    {
        same_text(self.ns.as_str(), ns) && same_text(self.local.as_str(), local)
    }
}

/// The qualified name made of what an XML parser reports of an attribute.
pub open spec fn make_qual_name(
    prefix: Option<Seq<char>>,
    uri: Option<Seq<char>>,
    localname: Seq<char>,
) -> QualifiedNameView {
    QualifiedNameView {
        prefix,
        ns: match uri {
            Some(u) => u,
            None => Seq::empty(),
        },
        local: localname,
    }
}

/// An attribute as an XML parser reports it: the local name, the prefix
/// and the namespace where there are any, and the value where the parser
/// has one.
pub struct Xml2Attribute {
    pub localname: String,
    pub prefix: Option<String>,
    pub uri: Option<String>,
    pub value: Option<String>,
}

/// An attribute of a property bag.
pub ghost struct AttributeView {
    pub name: QualifiedNameView,
    pub value: Seq<char>,
}

/// The attributes with a value among those reported, in their order,
/// each under its qualified name.
pub open spec fn attributes_with_values(attrs: Seq<Xml2Attribute>) -> Seq<AttributeView>
    decreases attrs.len(),
{
    if attrs.len() == 0 {
        Seq::empty()
    } else {
        let before = attributes_with_values(attrs.drop_last());
        let last = attrs.last();
        match last.value {
            Some(v) => before.push(
                AttributeView {
                    name: make_qual_name(text_view(last.prefix), text_view(last.uri), last.localname@),
                    value: v@,
                },
            ),
            None => before,
        }
    }
}

/// The attributes of an element.
pub struct PropertyBag {
    items: Vec<(QualifiedName, String)>,
}

/// The views of a list of attributes, one by one.
pub open spec fn items_view(items: Seq<(QualifiedName, String)>) -> Seq<AttributeView> {
    Seq::new(items.len(), |i: int| AttributeView { name: items[i].0@, value: items[i].1@ })
}

impl View for PropertyBag {
    type V = Seq<AttributeView>;

    closed spec fn view(&self) -> Seq<AttributeView> {
        items_view(self.items@)
    }
}

/// A walk through a property bag from its first attribute to its last.
pub struct PropertyBagIter<'a> {
    bag: &'a PropertyBag,
    position: usize,
}

impl PropertyBag {
    /// The bag of the attributes that the parser reported with a value.
    /// An attribute without a value is left out.
    pub fn new_from_xml2_attributes(attrs: &Vec<Xml2Attribute>) -> (bag: PropertyBag)
        ensures
            bag@ == attributes_with_values(attrs@),
    {
        let mut items: Vec<(QualifiedName, String)> = Vec::new();
        let mut i: usize = 0;
        assert(attrs@.take(0) =~= Seq::empty());
        assert(items_view(items@) =~= Seq::empty());
        while i < attrs.len()
            invariant
                i <= attrs@.len(),
                items_view(items@) == attributes_with_values(attrs@.take(i as int)),
            decreases attrs@.len() - i,
        {
            let ghost before = items_view(items@);
            proof {
                assert(attrs@.take(i + 1).drop_last() =~= attrs@.take(i as int));
                assert(attrs@.take(i + 1).last() == attrs@[i as int]);
            }
            let attr = &attrs[i];
            match &attr.value {
                Some(v) => {
                    let name = QualifiedName {
                        prefix: duplicate_text(&attr.prefix),
                        ns: match &attr.uri {
                            Some(u) => u.clone(),
                            None => String::new(),
                        },
                        local: attr.localname.clone(),
                    };
                    let value = v.clone();
                    items.push((name, value));
                    proof {
                        assert(items_view(items@) =~= before.push(
                            AttributeView { name: name@, value: value@ },
                        ));
                    }
                },
                None => {},
            }
            i += 1;
        }
        assert(attrs@.take(i as int) =~= attrs@);
        PropertyBag { items }
    }

    /// How many attributes the bag holds.
    pub fn len(&self) -> (n: usize)
        ensures
            n == self@.len(),
    {
        self.items.len()
    }

    /// A walk through the attributes, which starts at the first.
    pub fn iter(&self) -> (it: PropertyBagIter<'_>)
        ensures
            it.rest() == self@,
    {
        assert(self@.skip(0) =~= self@);
        PropertyBagIter { bag: self, position: 0 }
    }
}

impl<'a> PropertyBagIter<'a> {
    /// The attributes that the walk has yet to come to.
    pub closed spec fn rest(&self) -> Seq<AttributeView> {
        if self.position <= self.bag@.len() {
            self.bag@.skip(self.position as int)
        } else {
            Seq::empty()
        }
    }

    /// The next attribute: a copy of its name and of its value.  `None`
    /// once the walk is through.
    pub fn next(&mut self) -> (item: Option<(QualifiedName, String)>)
        ensures
            match item {
                Some((name, value)) => old(self).rest().len() > 0 && old(self).rest()[0]
                    == (AttributeView { name: name@, value: value@ }) && final(self).rest() == old(
                    self,
                ).rest().skip(1),
                None => old(self).rest().len() == 0 && final(self).rest().len() == 0,
            },
    {
        if self.position < self.bag.items.len() {
            let (name, value) = &self.bag.items[self.position];
            let item = (name.clone(), value.clone());
            proof {
                assert(self.bag@.skip(self.position as int).skip(1) =~= self.bag@.skip(
                    self.position + 1,
                ));
            }
            self.position += 1;
            Some(item)
        } else {
            None
        }
    }
}

} // verus!
