//! Parsing an element into a value, and finding a property of an object.
use vstd::prelude::*;
use crate::acceptance::lemma_element_builds;
use crate::comments::{lemma_read_comments_and_whitespace, spec_read_comments_and_whitespace};
use crate::elements::{
    entered,
    lemma_read_array,
    lemma_read_element,
    lemma_read_property,
    lemma_read_property_name,
    may_enter,
    spec_read_array,
    spec_read_element,
    spec_read_end_of_elements,
    spec_read_property,
    spec_read_property_name,
};
use crate::jsonh_error::JsonhError;
use crate::jsonh_reader::{is_char_at, JsonhReader};
use crate::jsonh_reader_options::JsonhReaderOptions;
use crate::jsonh_token::{tokens_view, JsonhToken, JsonhTokenView};
use crate::jsonh_value::{JsonhValue, JsonhValueView};
use crate::jsonh_value_builder::{build_value, spec_build_value};
use crate::numbers::{lemma_read_primitive_element, spec_read_primitive_element};
use crate::property_search::{lemma_find_property_value, names_property};
use std::str::Chars;
use vstd::std_specs::iter::IteratorSpec;

verus! {

/// What parsing an element gives: the value or the error, and the position
/// and nesting depth at which reading stopped.
pub struct Parsed {
    pub result: Result<JsonhValueView, JsonhError>,
    pub pos: int,
    pub depth: int,
}

/// What looking for a property gives: whether it was found, and the position
/// and nesting depth at which reading stopped.
pub struct Found {
    pub found: bool,
    pub pos: int,
    pub depth: int,
}

/// Parsing one element from `pos`: the value that the tokens of the element
/// build. Where the options ask for a single element, only comments and
/// whitespace may follow it.
pub open spec fn spec_parse_element(
    s: Seq<char>,
    pos: int,
    depth: int,
    options: JsonhReaderOptions,
) -> Parsed {
    let stream = spec_read_element(s, pos, depth, options);
    let built = spec_build_value(stream.tokens, stream.error);
    if built is Ok && options.parse_single_element {
        let rest = spec_read_end_of_elements(s, stream.pos, stream.depth, options.v2());
        Parsed {
            result: match rest.error {
                Some(e) => Err(e),
                None => built,
            },
            pos: rest.pos,
            depth: stream.depth,
        }
    } else {
        Parsed { result: built, pos: stream.pos, depth: stream.depth }
    }
}

/// Looking for the property `name` among the properties of an object from
/// `pos` on, at the depth `depth` inside the object. The search ends just
/// after the `:` of the first property of that name. A property of another
/// name is read with its value. `braces` says whether the object stands in
/// braces or is braceless.
pub open spec fn spec_find_property(
    s: Seq<char>,
    pos: int,
    depth: int,
    options: JsonhReaderOptions,
    name: Seq<char>,
    braces: bool,
) -> Found
    decreases s.len() - pos,
    when 0 <= pos <= s.len()
{
    let lead = spec_read_comments_and_whitespace(s, pos, depth, options.v2());
    if lead.error is Some {
        Found { found: false, pos: lead.pos, depth }
    } else if lead.pos >= s.len() {
        Found {
            found: false,
            pos: lead.pos,
            depth: if braces && !options.incomplete_inputs {
                depth
            } else {
                depth - 1
            },
        }
    } else if braces && is_char_at(s, lead.pos, '}') {
        Found { found: false, pos: lead.pos + 1, depth: depth - 1 }
    } else {
        let property = spec_read_property_name(s, lead.pos, depth, options.v2());
        if property.error is Some {
            Found { found: false, pos: property.pos, depth }
        } else if property.tokens.last().value == name {
            Found { found: true, pos: property.pos, depth }
        } else {
            proof {
                lemma_read_comments_and_whitespace(s, pos, depth, options.v2());
                lemma_read_property_name(s, lead.pos, depth, options.v2());
                lemma_read_property(s, property.pos, depth, options, Some(Seq::empty()));
            }
            let value = spec_read_property(s, property.pos, depth, options, Some(Seq::empty()));
            if value.error is Some {
                Found { found: false, pos: value.pos, depth: value.depth }
            } else {
                spec_find_property(s, value.pos, value.depth, options, name, braces)
            }
        }
    }
}

/// Looking for the property `name` in the element that starts at `pos`: the
/// element must be an object, in braces or braceless, and the property one of
/// its own, not one of an object inside it. The search ends just after the
/// `:` of the property, so that its value can be read next. Any error ends
/// the search without a find.
pub open spec fn spec_find_property_value(
    s: Seq<char>,
    pos: int,
    depth: int,
    options: JsonhReaderOptions,
    name: Seq<char>,
) -> Found {
    let lead = spec_read_comments_and_whitespace(s, pos, depth, options.v2());
    if lead.error is Some || lead.pos >= s.len() {
        Found { found: false, pos: lead.pos, depth }
    } else if is_char_at(s, lead.pos, '{') {
        if may_enter(depth, options) {
            spec_find_property(s, lead.pos + 1, depth + 1, options, name, true)
        } else {
            Found { found: false, pos: lead.pos + 1, depth: entered(depth) }
        }
    } else if is_char_at(s, lead.pos, '[') {
        let array = spec_read_array(s, lead.pos, depth, options);
        Found { found: false, pos: array.pos, depth: array.depth }
    } else {
        let primitive = spec_read_primitive_element(s, lead.pos, options.v2());
        match primitive.result {
            Err(_) => Found { found: false, pos: primitive.pos, depth },
            Ok(token) => {
                let trail = spec_read_comments_and_whitespace(
                    s,
                    primitive.pos,
                    depth,
                    options.v2(),
                );
                if trail.error is Some || !is_char_at(s, trail.pos, ':') {
                    Found { found: false, pos: trail.pos, depth }
                } else if !may_enter(depth, options) {
                    Found { found: false, pos: trail.pos + 1, depth: entered(depth) }
                } else if token.value == name {
                    Found { found: true, pos: trail.pos + 1, depth: depth + 1 }
                } else {
                    let value = spec_read_property(
                        s,
                        trail.pos + 1,
                        depth + 1,
                        options,
                        Some(Seq::empty()),
                    );
                    if value.error is Some {
                        Found { found: false, pos: value.pos, depth: value.depth }
                    } else {
                        spec_find_property(s, value.pos, value.depth, options, name, false)
                    }
                }
            },
        }
    }
}

impl JsonhReader {
    /// Parses a single element from characters that are at hand.
    pub fn parse_element_from_peekable_chars(source: Vec<char>, options: JsonhReaderOptions) -> (r:
        Result<JsonhValue, JsonhError>)
        ensures
            match spec_parse_element(source@, 0, 0, options).result {
                Ok(value) => r matches Ok(parsed) && parsed@ == value,
                Err(e) => r == Err::<JsonhValue, JsonhError>(e),
            },
    {
        let mut reader = Self::from_peekable_chars(source, options);
        reader.parse_element()
    }

    /// Parses a single element from a character iterator.
    pub fn parse_element_from_chars(source: Chars<'_>, options: JsonhReaderOptions) -> (r: Result<
        JsonhValue,
        JsonhError,
    >)
        requires
            IteratorSpec::initial_value_relation(&source, &source),
            IteratorSpec::decrease(&source) is Some,
        ensures
            match spec_parse_element(source.remaining(), 0, 0, options).result {
                Ok(value) => r matches Ok(parsed) && parsed@ == value,
                Err(e) => r == Err::<JsonhValue, JsonhError>(e),
            },
    {
        let mut reader = Self::from_chars(source, options);
        reader.parse_element()
    }

    /// Parses a single element from a string slice.
    pub fn parse_element_from_str(source: &str, options: JsonhReaderOptions) -> (r: Result<
        JsonhValue,
        JsonhError,
    >)
        ensures
            match spec_parse_element(source@, 0, 0, options).result {
                Ok(value) => r matches Ok(parsed) && parsed@ == value,
                Err(e) => r == Err::<JsonhValue, JsonhError>(e),
            },
    {
        let mut reader = Self::from_str(source, options);
        reader.parse_element()
    }

    /// Parses a single element from a string.
    pub fn parse_element_from_string(source: &String, options: JsonhReaderOptions) -> (r: Result<
        JsonhValue,
        JsonhError,
    >)
        ensures
            match spec_parse_element(source@, 0, 0, options).result {
                Ok(value) => r matches Ok(parsed) && parsed@ == value,
                Err(e) => r == Err::<JsonhValue, JsonhError>(e),
            },
    {
        let mut reader = Self::from_string(source, options);
        reader.parse_element()
    }

    /// Parses a single element from the reader: reads its tokens and builds
    /// the value that they describe. After an element that was parsed, the
    /// depth is what it was; and an error of reading the element is the
    /// error of parsing it.
    pub fn parse_element(&mut self) -> (r: Result<JsonhValue, JsonhError>)
        requires
            old(self).wf(),
        ensures
            final(self).wf(),
            ({
                let out = spec_parse_element(
                    old(self).source@,
                    old(self).position(),
                    old(self).depth as int,
                    old(self).options,
                );
                &&& final(self).continues(old(self), out.pos, out.depth)
                &&& match out.result {
                    Ok(value) => r matches Ok(parsed) && parsed@ == value,
                    Err(e) => r == Err::<JsonhValue, JsonhError>(e),
                }
            }),
            r is Ok ==> final(self).depth == old(self).depth,
            spec_read_element(
                old(self).source@,
                old(self).position(),
                old(self).depth as int,
                old(self).options,
            ).error matches Some(e) ==> r == Err::<JsonhValue, JsonhError>(e),
            old(self).char_counter <= final(self).char_counter,
    {
        proof {
            lemma_element_builds(
                self.source@,
                self.position(),
                self.depth as int,
                self.options,
            );
            lemma_read_element(
                self.source@,
                self.position(),
                self.depth as int,
                self.options,
            );
            let stream = spec_read_element(
                self.source@,
                self.position(),
                self.depth as int,
                self.options,
            );
            lemma_read_comments_and_whitespace(
                self.source@,
                stream.pos,
                stream.depth,
                self.options.v2(),
            );
        }
        let mut tokens: Vec<JsonhToken> = Vec::new();
        assert(tokens_view(tokens@) =~= Seq::<JsonhTokenView>::empty());
        // Parse next element
        let end = self.read_element_into(&mut tokens);
        proof {
            let stream = spec_read_element(
                old(self).source@,
                old(self).position(),
                old(self).depth as int,
                old(self).options,
            );
            assert(tokens_view(tokens@) =~= stream.tokens);
        }
        let next_element = build_value(&tokens, end);
        // Ensure exactly one element
        if next_element.is_ok() && self.options.parse_single_element {
            let mut rest: Vec<JsonhToken> = Vec::new();
            match self.read_comments_and_whitespace(&mut rest) {
                Ok(()) => {},
                Err(err) => { return Err(err); },
            }
            if self.peek().is_some() {
                return Err(JsonhError::ExpectedEndOfElements);
            }
        }
        next_element
    }

    /// Looks for the property `name` among the properties of an object from
    /// the reader's position on, and stops just after the `:` of the first
    /// property of that name.
    pub fn find_property(&mut self, name: &String, braces: bool) -> (r: bool)
        requires
            old(self).wf(),
            old(self).depth >= 1,
        ensures
            final(self).wf(),
            ({
                let out = spec_find_property(
                    old(self).source@,
                    old(self).position(),
                    old(self).depth as int,
                    old(self).options,
                    name@,
                    braces,
                );
                &&& final(self).continues(old(self), out.pos, out.depth)
                &&& r == out.found
            }),
    {
        let ghost s = self.source@;
        let ghost options = self.options;
        let ghost total = spec_find_property(
            s,
            self.position(),
            self.depth as int,
            options,
            name@,
            braces,
        );
        loop
            invariant
                self.wf(),
                self.source == old(self).source,
                self.options == old(self).options,
                self.depth >= 1,
                s == self.source@,
                options == self.options,
                spec_find_property(s, self.position(), self.depth as int, options, name@, braces)
                    == total,
            decreases self.source.len() - self.char_counter,
        {
            let ghost depth = self.depth as int;
            let ghost lead = spec_read_comments_and_whitespace(
                s,
                self.position(),
                depth,
                options.v2(),
            );
            proof {
                lemma_read_comments_and_whitespace(s, self.position(), depth, options.v2());
                lemma_read_property_name(s, lead.pos, depth, options.v2());
            }
            let mut scratch: Vec<JsonhToken> = Vec::new();
            assert(tokens_view(scratch@) =~= Seq::<JsonhTokenView>::empty());
            // Comments & whitespace
            if self.read_comments_and_whitespace(&mut scratch).is_err() {
                return false;
            }
            match self.peek() {
                None => {
                    // End of the object, or of the input inside it
                    if !braces || self.options.incomplete_inputs {
                        self.depth = self.depth - 1;
                    }
                    return false;
                },
                Some(next) => {
                    if braces && next == '}' {
                        // End of object
                        self.read();
                        self.depth = self.depth - 1;
                        return false;
                    }
                },
            }
            // Property name
            let ghost property = spec_read_property_name(s, lead.pos, depth, options.v2());
            let mut name_tokens: Vec<JsonhToken> = Vec::new();
            assert(tokens_view(name_tokens@) =~= Seq::<JsonhTokenView>::empty());
            if self.read_property_name(&mut name_tokens).is_err() {
                return false;
            }
            assert(tokens_view(name_tokens@) =~= property.tokens);
            assert(name_tokens.len() > 0);
            if name_tokens[name_tokens.len() - 1].value == *name {
                // Path found
                return true;
            }
            // Property value
            proof {
                lemma_read_property(s, property.pos, depth, options, Some(Seq::empty()));
            }
            let initial: Vec<JsonhToken> = Vec::new();
            assert(tokens_view(initial@) =~= Seq::<JsonhTokenView>::empty());
            if self.read_property(&mut scratch, Some(initial)).is_err() {
                return false;
            }
        }
    }

    /// Tries to find the given property name in the reader: a property of
    /// the object that starts at the reader's position, not of an object
    /// inside it. The name is found exactly where the tokens of the element
    /// hold it as a property name at depth one. After a find the reader
    /// stands before the property's value.
    ///
    /// For example, to find `c`:
    /// ```text
    /// // Starting position
    /// {
    ///   "a": "1",
    ///   "b": {
    ///     "c": "2"
    ///   },
    ///   "c":/* Final position */ "3"
    /// }
    /// ```
    pub fn find_property_value(&mut self, property_name: &str) -> (r: bool)
        requires
            old(self).wf(),
        ensures
            final(self).wf(),
            ({
                let out = spec_find_property_value(
                    old(self).source@,
                    old(self).position(),
                    old(self).depth as int,
                    old(self).options,
                    property_name@,
                );
                &&& final(self).continues(old(self), out.pos, out.depth)
                &&& r == out.found
            }),
            r == names_property(
                spec_read_element(
                    old(self).source@,
                    old(self).position(),
                    old(self).depth as int,
                    old(self).options,
                ).tokens,
                property_name@,
                0,
            ),
    {
        let ghost s = self.source@;
        let ghost depth = self.depth as int;
        let ghost options = self.options;
        proof {
            lemma_find_property_value(s, self.position(), depth, options, property_name@);
        }
        let name = String::from_str(property_name);
        proof {
            lemma_read_comments_and_whitespace(s, self.position(), depth, options.v2());
        }
        let mut scratch: Vec<JsonhToken> = Vec::new();
        // Comments & whitespace
        if self.read_comments_and_whitespace(&mut scratch).is_err() {
            return false;
        }
        let next = match self.peek() {
            Some(c) => c,
            None => { return false; },
        };
        if next == '{' {
            // Object
            self.read();
            if !self.enter() {
                return false;
            }
            self.find_property(&name, true)
        } else if next == '[' {
            // Array: its properties lie deeper
            proof {
                lemma_read_array(s, self.position(), depth, options);
            }
            let _ = self.read_array(&mut scratch);
            false
        } else {
            // Primitive value, or the first property name of a braceless object
            proof {
                lemma_read_primitive_element(s, self.position(), options.v2());
            }
            let token = match self.read_primitive_element() {
                Ok(token) => token,
                Err(_) => { return false; },
            };
            proof {
                lemma_read_comments_and_whitespace(s, self.position(), depth, options.v2());
            }
            if self.read_comments_and_whitespace(&mut scratch).is_err() {
                return false;
            }
            if !self.read_one(':') {
                return false;
            }
            if !self.enter() {
                return false;
            }
            if token.value == name {
                // Path found
                return true;
            }
            // Property value
            proof {
                lemma_read_property(
                    s,
                    self.position(),
                    self.depth as int,
                    options,
                    Some(Seq::empty()),
                );
            }
            let initial: Vec<JsonhToken> = Vec::new();
            assert(tokens_view(initial@) =~= Seq::<JsonhTokenView>::empty());
            if self.read_property(&mut scratch, Some(initial)).is_err() {
                return false;
            }
            self.find_property(&name, false)
        }
    }
}

} // verus!
