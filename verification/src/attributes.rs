use vstd::prelude::*;

use crate::decimal::{int_text, push_int};
use crate::text::{chars_of, owned, push_char, starts_with_chars, str_equal};

verus! {

/// An attribute of a component: its name and its value as text.
pub struct Attribute {
    pub name: String,
    pub value: String,
}

/// What the common components read of their properties: the extra
/// attributes given to them, and the plain properties.
pub struct AppCommonComponentProps {
    pub attributes: Vec<Attribute>,
    pub disabled: bool,
    pub placeholder: Option<String>,
    pub value: Option<String>,
    pub input_type: Option<String>,
}

/// The names and values of a list of attributes, as text.
pub open spec fn attribute_texts(s: Seq<Attribute>) -> Seq<(Seq<char>, Seq<char>)> {
    s.map_values(|a: Attribute| (a.name@, a.value@))
}

/// The value of the first attribute named `name`.
pub open spec fn first_value(s: Seq<(Seq<char>, Seq<char>)>, name: Seq<char>) -> Option<Seq<char>>
    decreases s.len(),
{
    if s.len() == 0 {
        None
    } else if s[0].0 == name {
        Some(s[0].1)
    } else {
        first_value(s.drop_first(), name)
    }
}

/// An attribute that is passed on to the rendered element: all but
/// `class` and the ones whose name starts with `on_`.
pub open spec fn is_passed_on(name: Seq<char>) -> bool {
    name != "class"@ && !("on_"@.len() <= name.len() && name.take("on_"@.len() as int) == "on_"@)
}

/// The attributes passed on, in order.
pub open spec fn passed_on(s: Seq<(Seq<char>, Seq<char>)>) -> Seq<(Seq<char>, Seq<char>)>
    decreases s.len(),
{
    if s.len() == 0 {
        s
    } else if is_passed_on(s.last().0) {
        passed_on(s.drop_last()).push(s.last())
    } else {
        passed_on(s.drop_last())
    }
}

/// A property's text when it is given, otherwise the value of the first
/// attribute named `name`, otherwise `default`.
pub open spec fn given_or_attribute(
    given: Option<String>,
    attributes: Seq<(Seq<char>, Seq<char>)>,
    name: Seq<char>,
    default: Seq<char>,
) -> Seq<char> {
    match given {
        Some(g) => g@,
        None => match first_value(attributes, name) {
            Some(v) => v,
            None => default,
        },
    }
}

impl AppCommonComponentProps {
    fn first_attribute_value(&self, name: &str) -> (r: Option<String>)
        ensures
            match r {
                Some(v) => first_value(attribute_texts(self.attributes@), name@) == Some(v@),
                None => first_value(attribute_texts(self.attributes@), name@) is None,
            },
    {
        let mut i: usize = 0;
        let ghost all = attribute_texts(self.attributes@);
        assert(all.skip(0) =~= all);
        while i < self.attributes.len()
            invariant
                i <= self.attributes@.len(),
                all == attribute_texts(self.attributes@),
                first_value(all, name@) == first_value(all.skip(i as int), name@),
            decreases self.attributes@.len() - i,
        {
            assert(all.skip(i as int)[0] == (self.attributes@[i as int].name@, self.attributes@[i as int].value@));
            if str_equal(self.attributes[i].name.as_str(), name) {
                return Some(self.attributes[i].value.clone());
            }
            assert(all.skip(i as int).drop_first() =~= all.skip(i + 1));
            i += 1;
        }
        None
    }

    /// The `class` of the element: `default`, a space, and the value of the
    /// first `class` attribute given (nothing when none is given).
    pub fn class(&self, default: &str) -> (c: String)
        ensures
            c@ == default@ + seq![' '] + match first_value(attribute_texts(self.attributes@), "class"@) {
                Some(v) => v,
                None => Seq::<char>::empty(),
            },
    {
        let mut c = owned(default);
        push_char(&mut c, ' ');
        match self.first_attribute_value("class") {
            Some(v) => c.append(v.as_str()),
            None => {},
        }
        c
    }

    /// The value of the first attribute named `name`, or `default`.
    pub fn get_attribute_value_string(&self, name: &str, default: &str) -> (v: String)
        ensures
            v@ == match first_value(attribute_texts(self.attributes@), name@) {
                Some(v) => v,
                None => default@,
            },
    {
        match self.first_attribute_value(name) {
            Some(v) => v,
            None => owned(default),
        }
    }

    fn given_or_attribute_value(&self, given: &Option<String>, name: &str, default: &str) -> (t: String)
        ensures
            t@ == given_or_attribute(*given, attribute_texts(self.attributes@), name@, default@),
    {
        match given {
            Some(g) => g.clone(),
            None => self.get_attribute_value_string(name, default),
        }
    }

    /// The placeholder of an input: the one given, or the `aria_placeholder`
    /// attribute, or `Type here...`.
    pub fn input_placeholder(&self) -> (t: String)
        ensures
            t@ == given_or_attribute(
                self.placeholder,
                attribute_texts(self.attributes@),
                "aria_placeholder"@,
                "Type here..."@,
            ),
    {
        self.given_or_attribute_value(&self.placeholder, "aria_placeholder", "Type here...")
    }

    /// The value of an input: the one given, or the `value` attribute, or nothing.
    pub fn input_value(&self) -> (t: String)
        ensures
            t@ == given_or_attribute(self.value, attribute_texts(self.attributes@), "value"@, ""@),
    {
        self.given_or_attribute_value(&self.value, "value", "")
    }

    /// The type of an input: the one given, or the `type` attribute, or `text`.
    pub fn input_type_text(&self) -> (t: String)
        ensures
            t@ == given_or_attribute(self.input_type, attribute_texts(self.attributes@), "type"@, "text"@),
    {
        self.given_or_attribute_value(&self.input_type, "type", "text")
    }

    /// The attributes passed on to the rendered element, in order.
    pub fn render_attribute(&self) -> (r: Vec<Attribute>)
        ensures
            attribute_texts(r@) == passed_on(attribute_texts(self.attributes@)),
    {
        let mut r: Vec<Attribute> = Vec::new();
        let mut i: usize = 0;
        let ghost all = attribute_texts(self.attributes@);
        let on = chars_of("on_");
        while i < self.attributes.len()
            invariant
                i <= self.attributes@.len(),
                all == attribute_texts(self.attributes@),
                on@ == "on_"@,
                attribute_texts(r@) == passed_on(all.take(i as int)),
            decreases self.attributes@.len() - i,
        {
            let a = &self.attributes[i];
            let name = chars_of(a.name.as_str());
            let keep = !str_equal(a.name.as_str(), "class") && !starts_with_chars(name.as_slice(), on.as_slice());
            proof {
                assert(all.take(i + 1).drop_last() =~= all.take(i as int));
                assert(all.take(i + 1).last() == (a.name@, a.value@));
            }
            if keep {
                let ghost before = attribute_texts(r@);
                r.push(Attribute { name: a.name.clone(), value: a.value.clone() });
                assert(attribute_texts(r@) =~= before.push((a.name@, a.value@)));
            }
            i += 1;
        }
        assert(all.take(self.attributes@.len() as int) =~= all);
        r
    }
}

/// A value that an attribute may carry before it is shown as text.
pub enum AttributeValue {
    /// A text.
    Text(String),
    /// An integer.
    Int(i64),
    /// A truth value.
    Bool(bool),
    /// No value.
    NoValue,
}

/// The text of an attribute value: a text as it is, an integer in
/// decimal, `true` or `false`, and nothing for no value.
pub open spec fn value_text(v: AttributeValue) -> Seq<char> {
    match v {
        AttributeValue::Text(t) => t@,
        AttributeValue::Int(i) => int_text(i as int),
        AttributeValue::Bool(b) => if b { "true"@ } else { "false"@ },
        AttributeValue::NoValue => Seq::<char>::empty(),
    }
}

/// Values that can be shown as text.
pub trait ToString {
    fn to_string(&self) -> String;
}

impl ToString for AttributeValue {
    /// The text of the value, as `value_text` states.
    fn to_string(&self) -> (t: String)
        ensures
            t@ == value_text(*self),
    {
        match self {
            AttributeValue::Text(t) => t.clone(),
            AttributeValue::Int(i) => {
                let mut t = String::new();
                push_int(&mut t, *i);
                t
            },
            AttributeValue::Bool(b) => if *b {
                owned("true")
            } else {
                owned("false")
            },
            AttributeValue::NoValue => String::new(),
        }
    }
}

} // verus!
