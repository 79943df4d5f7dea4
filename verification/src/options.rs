//! The dynamic configuration tree handed to node constructors.
//!
//! A declarative per-node option block arrives as a raw [`Yaml`] tree (the
//! shape of the external format, numbers already in fixed point) and is
//! checked and converted by [`from_yaml`]: a null or tagged value anywhere is
//! an error, as is a mapping key that is not text.

use vstd::prelude::*;

use crate::fixed::SCALE;
use crate::text::str_eq;
use crate::util::Error;

verus! {

broadcast use vstd::std_specs::vec::axiom_vec_index_decreases;

/// A signed fixed-point number: `mag` counts [`SCALE`]ths, negated when
/// `neg` is set.
#[derive(Debug, Clone, Copy, PartialEq, Eq, Structural)]
pub struct Num {
    pub neg: bool,
    pub mag: u64,
}

impl Num {
    /// The signed raw value in `SCALE`ths.
    pub open spec fn val(self) -> int {
        if self.neg {
            -(self.mag as int)
        } else {
            self.mag as int
        }
    }

    pub fn from_raw(neg: bool, mag: u64) -> (n: Num)
        ensures
            n.neg == neg,
            n.mag == mag,
    {
        Num { neg, mag }
    }
}

/// A raw declarative value as the external format shapes it.
#[derive(Debug)]
pub enum Yaml {
    Null,
    Bool(bool),
    Number(Num),
    Text(String),
    Sequence(Vec<Yaml>),
    Mapping(Vec<(Yaml, Yaml)>),
    Tagged(Box<Yaml>),
}

/// A checked configuration value.
#[derive(Debug)]
pub enum Value {
    Bool(bool),
    Number(Num),
    Text(String),
    Sequence(Vec<Value>),
    Mapping(Vec<(String, Value)>),
}

/// Whether a raw value survives conversion: no null, no tagged value, and
/// every mapping key is text.
pub open spec fn yaml_value_ok(y: Yaml) -> bool
    decreases y,
{
    match y {
        Yaml::Null => false,
        Yaml::Bool(_) => true,
        Yaml::Number(_) => true,
        Yaml::Text(_) => true,
        Yaml::Sequence(items) => forall|i: int|
            0 <= i < items@.len() ==> yaml_value_ok(#[trigger] items@[i]),
        Yaml::Mapping(pairs) => forall|i: int|
            0 <= i < pairs@.len() ==> (#[trigger] pairs@[i]).0 is Text && yaml_value_ok(
                pairs@[i].1,
            ),
        Yaml::Tagged(_) => false,
    }
}

/// The conversion relation between a raw value and its checked form.
pub open spec fn converts_to(y: Yaml, out: Value) -> bool
    decreases y,
{
    match y {
        Yaml::Null => false,
        Yaml::Bool(b) => out == Value::Bool(b),
        Yaml::Number(n) => out == Value::Number(n),
        Yaml::Text(s) => out matches Value::Text(t) && t@ == s@,
        Yaml::Sequence(items) => out matches Value::Sequence(vals) && vals@.len() == items@.len()
            && forall|i: int|
            0 <= i < items@.len() ==> converts_to(#[trigger] items@[i], vals@[i]),
        Yaml::Mapping(pairs) => out matches Value::Mapping(entries) && entries@.len()
            == pairs@.len() && forall|i: int|
            0 <= i < pairs@.len() ==> ((#[trigger] pairs@[i]).0 matches Yaml::Text(t)
                && entries@[i].0@ == t@ && converts_to(pairs@[i].1, entries@[i].1)),
        Yaml::Tagged(_) => false,
    }
}

/// Convert one raw value, concentrating every conversion failure here.
pub fn from_yaml_value(value: &Yaml) -> (r: Result<Value, Error>)
    ensures
        r is Ok <==> yaml_value_ok(*value),
        r matches Ok(out) ==> converts_to(*value, out),
        r matches Err(e) ==> e is InvalidOptions,
    decreases *value,
{
    match value {
        Yaml::Null => Err(Error::InvalidOptions),
        Yaml::Bool(b) => Ok(Value::Bool(*b)),
        Yaml::Number(n) => Ok(Value::Number(*n)),
        Yaml::Text(s) => Ok(Value::Text(s.clone())),
        Yaml::Sequence(items) => {
            let mut vals: Vec<Value> = Vec::new();
            let mut i: usize = 0;
            while i < items.len()
                invariant
                    *value == Yaml::Sequence(*items),
                    i <= items@.len(),
                    vals@.len() == i,
                    forall|k: int|
                        0 <= k < i ==> yaml_value_ok(#[trigger] items@[k]) && converts_to(
                            items@[k],
                            vals@[k],
                        ),
                decreases items@.len() - i,
            {
                proof {
                    let yv: Yaml = *value;
                    assert(yv == Yaml::Sequence(*items));
                    assert(decreases_to!(yv => yv->Sequence_0));
                    assert(decreases_to!(*items => items@[i as int]));
                }
                match from_yaml_value(&items[i]) {
                    Ok(v) => vals.push(v),
                    Err(e) => {
                        proof {
                            assert(!yaml_value_ok(items@[i as int]));
                            assert(!yaml_value_ok(Yaml::Sequence(*items)));
                            assert(*value == Yaml::Sequence(*items));
                        }
                        return Err(e);
                    },
                }
                i = i + 1;
            }
            Ok(Value::Sequence(vals))
        },
        Yaml::Mapping(pairs) => {
            let mut entries: Vec<(String, Value)> = Vec::new();
            let mut i: usize = 0;
            while i < pairs.len()
                invariant
                    *value == Yaml::Mapping(*pairs),
                    i <= pairs@.len(),
                    entries@.len() == i,
                    forall|k: int|
                        0 <= k < i ==> (#[trigger] pairs@[k]).0 is Text && yaml_value_ok(
                            pairs@[k].1,
                        ) && (pairs@[k].0 matches Yaml::Text(t) && entries@[k].0@ == t@)
                            && converts_to(pairs@[k].1, entries@[k].1),
                decreases pairs@.len() - i,
            {
                let key = match &pairs[i].0 {
                    Yaml::Text(s) => s.clone(),
                    _ => {
                        proof {
                            assert(!((pairs@[i as int]).0 is Text));
                            assert(!yaml_value_ok(Yaml::Mapping(*pairs)));
                            assert(*value == Yaml::Mapping(*pairs));
                        }
                        return Err(Error::InvalidOptions);
                    },
                };
                proof {
                    let yv: Yaml = *value;
                    assert(yv == Yaml::Mapping(*pairs));
                    assert(decreases_to!(yv => yv->Mapping_0));
                    assert(decreases_to!(*pairs => pairs@[i as int]));
                    assert(decreases_to!(pairs@[i as int] => pairs@[i as int].1));
                }
                match from_yaml_value(&pairs[i].1) {
                    Ok(v) => entries.push((key, v)),
                    Err(e) => {
                        proof {
                            assert(!yaml_value_ok(pairs@[i as int].1));
                            assert(!yaml_value_ok(Yaml::Mapping(*pairs)));
                            assert(*value == Yaml::Mapping(*pairs));
                        }
                        return Err(e);
                    },
                }
                i = i + 1;
            }
            Ok(Value::Mapping(entries))
        },
        Yaml::Tagged(_) => Err(Error::InvalidOptions),
    }
}

/// An option block: string keys to checked values, ordered as declared.
#[derive(Debug)]
pub struct Options {
    entries: Vec<(String, Value)>,
}

/// The most recent value stored under `key`, if any: with a duplicated
/// key, the later declaration wins.
pub open spec fn lookup(entries: Seq<(String, Value)>, key: Seq<char>) -> Option<Value>
    decreases entries.len(),
{
    if entries.len() == 0 {
        Option::None
    } else if entries.last().0@ == key {
        Option::Some(entries.last().1)
    } else {
        lookup(entries.drop_last(), key)
    }
}

impl Options {
    pub closed spec fn spec_entries(self) -> Seq<(String, Value)> {
        self.entries@
    }

    /// The value stored under `key`, later declarations winning.
    pub open spec fn spec_get(self, key: Seq<char>) -> Option<Value> {
        lookup(self.spec_entries(), key)
    }

    /// An empty option block.
    pub fn empty() -> (o: Options)
        ensures
            o.spec_entries().len() == 0,
    {
        Options { entries: Vec::new() }
    }

    pub fn from_entries(entries: Vec<(String, Value)>) -> (o: Options)
        ensures
            o.spec_entries() == entries@,
    {
        Options { entries }
    }

    /// Look a key up, the latest declaration winning.
    pub fn get<'a>(&'a self, key: &str) -> (r: Option<&'a Value>)
        ensures
            match r {
                Option::Some(v) => self.spec_get(key@) == Option::Some(*v),
                Option::None => self.spec_get(key@) is None,
            },
    {
        let n = self.entries.len();
        let mut i: usize = n;
        proof {
            assert(self.entries@.take(n as int) =~= self.entries@);
        }
        while i > 0
            invariant
                i <= n,
                n == self.entries@.len(),
                lookup(self.entries@, key@) == lookup(self.entries@.take(i as int), key@),
            decreases i,
        {
            i = i - 1;
            proof {
                assert(self.entries@.take(i as int + 1).drop_last() =~= self.entries@.take(
                    i as int,
                ));
                assert(self.entries@.take(i as int + 1).last() == self.entries@[i as int]);
            }
            if str_eq(self.entries[i].0.as_str(), key) {
                return Some(&self.entries[i].1);
            }
        }
        None
    }
}

/// Convert a raw mapping into an option block; the single point where
/// malformed declarative input is rejected.
pub fn from_yaml(options: &Vec<(Yaml, Yaml)>) -> (r: Result<Options, Error>)
    ensures
        r is Ok <==> yaml_value_ok(Yaml::Mapping(*options)),
        r matches Ok(o) ==> o.spec_entries().len() == options@.len() && forall|i: int|
            0 <= i < options@.len() ==> ((#[trigger] options@[i]).0 matches Yaml::Text(t)
                && o.spec_entries()[i].0@ == t@ && converts_to(
                options@[i].1,
                o.spec_entries()[i].1,
            )),
        r matches Err(e) ==> e is InvalidOptions,
{
    let mut entries: Vec<(String, Value)> = Vec::new();
    let mut i: usize = 0;
    while i < options.len()
        invariant
            i <= options@.len(),
            entries@.len() == i,
            forall|k: int|
                0 <= k < i ==> (#[trigger] options@[k]).0 is Text && yaml_value_ok(options@[k].1)
                    && (options@[k].0 matches Yaml::Text(t) && entries@[k].0@ == t@) && converts_to(
                    options@[k].1,
                    entries@[k].1,
                ),
        decreases options@.len() - i,
    {
        let key = match &options[i].0 {
            Yaml::Text(s) => s.clone(),
            _ => {
                return Err(Error::InvalidOptions);
            },
        };
        match from_yaml_value(&options[i].1) {
            Ok(v) => entries.push((key, v)),
            Err(e) => {
                return Err(e);
            },
        }
        i = i + 1;
    }
    Ok(Options::from_entries(entries))
}

/// A borrowed view of a value as a sequence: scalars act as a sequence of
/// one element, a sequence as itself.
pub enum ValueSlice<'a> {
    One(&'a Value),
    Many(&'a Vec<Value>),
}

impl<'a> ValueSlice<'a> {
    /// The sequence of values this view denotes.
    pub open spec fn seq(self) -> Seq<Value> {
        match self {
            ValueSlice::One(v) => seq![*v],
            ValueSlice::Many(vs) => vs@,
        }
    }

    pub fn len(&self) -> (n: usize)
        ensures
            n == self.seq().len(),
    {
        match self {
            ValueSlice::One(_) => 1,
            ValueSlice::Many(vs) => vs.len(),
        }
    }

    pub fn get(&self, i: usize) -> (v: &'a Value)
        requires
            i < self.seq().len(),
        ensures
            *v == self.seq()[i as int],
    {
        match self {
            ValueSlice::One(v) => *v,
            ValueSlice::Many(vs) => &vs[i],
        }
    }
}

impl Value {
    pub fn as_bool(&self) -> (r: Option<bool>)
        ensures
            r matches Some(b) ==> *self == Value::Bool(b),
            r is None ==> !(*self is Bool),
            *self is Bool ==> r is Some,
    {
        match self {
            Value::Bool(b) => Some(*b),
            _ => None,
        }
    }

    /// The numeric payload, if this is a number.
    pub fn as_number(&self) -> (r: Option<Num>)
        ensures
            r matches Some(n) ==> *self == Value::Number(n),
            *self is Number <==> r is Some,
    {
        match self {
            Value::Number(n) => Some(*n),
            _ => None,
        }
    }

    /// What [`Value::as_i32`] returns: the number if its fractional part is
    /// exactly zero, saturated to the `i32` range.
    pub open spec fn spec_as_i32(self) -> Option<i32> {
        match self {
            Value::Number(n) => if n.mag % SCALE == 0 {
                let q = n.mag as int / SCALE as int;
                if n.neg {
                    if -q < i32::MIN {
                        Option::Some(i32::MIN)
                    } else {
                        Option::Some((-q) as i32)
                    }
                } else {
                    if q > i32::MAX {
                        Option::Some(i32::MAX)
                    } else {
                        Option::Some(q as i32)
                    }
                }
            } else {
                Option::None
            },
            _ => Option::None,
        }
    }

    /// The number as an integer when its fractional part is exactly zero,
    /// saturated to the `i32` range.
    pub fn as_i32(&self) -> (r: Option<i32>)
        ensures
            r == self.spec_as_i32(),
    {
        match self {
            Value::Number(n) => {
                if n.mag % SCALE == 0 {
                    let q = n.mag / SCALE;
                    if n.neg {
                        if q >= 0x8000_0000u64 {
                            Some(i32::MIN)
                        } else if q == 0 {
                            Some(0)
                        } else {
                            Some(-((q - 1) as i32) - 1)
                        }
                    } else {
                        if q > 0x7fff_ffffu64 {
                            Some(i32::MAX)
                        } else {
                            Some(q as i32)
                        }
                    }
                } else {
                    None
                }
            },
            _ => None,
        }
    }

    pub fn as_str(&self) -> (r: Option<&str>)
        ensures
            r matches Some(t) ==> (self matches Value::Text(s) && t@ == s@),
            *self is Text <==> r is Some,
    {
        match self {
            Value::Text(s) => Some(s.as_str()),
            _ => None,
        }
    }

    /// Scalars are one-element sequences, sequences are themselves, and a
    /// mapping has no sequence form.
    pub fn as_slice(&self) -> (r: Option<ValueSlice<'_>>)
        ensures
            match r {
                Option::Some(s) => match *self {
                    Value::Sequence(vs) => s.seq() == vs@,
                    Value::Mapping(_) => false,
                    _ => s.seq() == seq![*self],
                },
                Option::None => *self is Mapping,
            },
    {
        match self {
            Value::Bool(_) => Some(ValueSlice::One(self)),
            Value::Number(_) => Some(ValueSlice::One(self)),
            Value::Text(_) => Some(ValueSlice::One(self)),
            Value::Sequence(vs) => Some(ValueSlice::Many(vs)),
            Value::Mapping(_) => None,
        }
    }

    /// Key lookup inside a mapping value, the latest declaration winning.
    pub fn get<'a>(&'a self, key: &str) -> (r: Option<&'a Value>)
        ensures
            match r {
                Option::Some(v) => (self matches Value::Mapping(entries) && lookup(
                    entries@,
                    key@,
                ) == Option::Some(*v)),
                Option::None => (self matches Value::Mapping(entries) ==> lookup(entries@, key@)
                    is None),
            },
    {
        match self {
            Value::Mapping(entries) => {
                let n = entries.len();
                let mut i: usize = n;
                proof {
                    assert(entries@.take(n as int) =~= entries@);
                }
                while i > 0
                    invariant
                        *self == Value::Mapping(*entries),
                        i <= n,
                        n == entries@.len(),
                        lookup(entries@, key@) == lookup(entries@.take(i as int), key@),
                    decreases i,
                {
                    i = i - 1;
                    proof {
                        assert(entries@.take(i as int + 1).drop_last() =~= entries@.take(
                            i as int,
                        ));
                        assert(entries@.take(i as int + 1).last() == entries@[i as int]);
                    }
                    if str_eq(entries[i].0.as_str(), key) {
                        return Some(&entries[i].1);
                    }
                }
                None
            },
            _ => None,
        }
    }
}

} // verus!
