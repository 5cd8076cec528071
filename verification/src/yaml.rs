//! The loader: from the events of a text to a tree of spanned values.
//!
//! What the loader builds is stated first, as functions on the sequence of
//! pulls that a parser yields. The executable loader is then proved to
//! compute exactly that, pull by pull.

use crate::data::array_view;
use crate::data::put;
use crate::data::KeyView;
use crate::data::NodeView;
use crate::data::Position;
use crate::data::Spanned;
use crate::data::SpannedValue;
use crate::data::SpannedView;
use crate::data::Value;
use crate::data::ValueMap;
use crate::data::ValueView;
use crate::error::ContextualError;
use crate::error::Error;
use crate::events::is_run;
use crate::events::scan_error_text;
use crate::events::yaml_events;
use crate::events::EventStream;
use crate::events::Pull;
use crate::scalar::scalar_value;
use crate::scalar::scalar;
use crate::scalar::yaml_resolve;
use crate::validator::Validator;
use vstd::prelude::*;
use yaml_rust::parser::Event;

verus! {

/// What reading something off a sequence of pulls comes to: the thing, or
/// the message of the error in its place, and the number of pulls that the
/// thing takes up.
pub struct Parsed<T> {
    pub result: Result<T, Seq<char>>,
    pub used: nat,
}

/// A reading that failed with `message`.
pub open spec fn failed<T>(message: Seq<char>) -> Parsed<T> {
    Parsed { result: Err(message), used: 0 }
}

/// The node whose span is the one place `at`.
pub open spec fn point(at: Position, value: ValueView) -> NodeView {
    SpannedView { start: at, end: at, value }
}

/// The node that begins the pulls `s`.
///
/// A scalar is one pull. A sequence is its opening, its items and its
/// closing; a mapping is its opening, its entries and its closing. Any other
/// event is no node, and a scan error ends the reading with its own words.
/// The number of pulls used is stated for a node that was read.
pub open spec fn node(s: Seq<Pull>) -> Parsed<NodeView>
    decreases s.len(), 0nat,
{
    if s.len() == 0 {
        failed("unexpected type"@)
    } else {
        match s[0] {
            Err(err) => failed(scan_error_text(err)),
            Ok((event, at)) => match event {
                Event::Scalar(text, style, _, tag) => match scalar(
                    text@,
                    style,
                    tag,
                    yaml_resolve(text@),
                ) {
                    Ok(value) => Parsed { result: Ok(point(at, value)), used: 1 },
                    Err(message) => failed(message),
                },
                Event::SequenceStart(_) => {
                    let rest = items(s.skip(1), Seq::empty());
                    match rest.result {
                        Ok(nodes) => Parsed {
                            result: Ok(point(at, ValueView::Array(nodes))),
                            used: rest.used + 1,
                        },
                        Err(message) => failed(message),
                    }
                },
                Event::MappingStart(_) => {
                    let rest = entries(s.skip(1), Seq::empty());
                    match rest.result {
                        Ok(pairs) => Parsed {
                            result: Ok(point(at, ValueView::Mapping(pairs))),
                            used: rest.used + 1,
                        },
                        Err(message) => failed(message),
                    }
                },
                _ => failed("unexpected type"@),
            },
        }
    }
}

/// The items of a sequence whose opening has been read, after the items
/// `sofar`: nodes up to the closing of the sequence, which is read too.
///
/// A node that was read has used at least one pull and no more than there
/// are: the test on `used` is always met, and is there for the definition's
/// sake.
pub open spec fn items(s: Seq<Pull>, sofar: Seq<NodeView>) -> Parsed<Seq<NodeView>>
    decreases s.len(), 1nat,
{
    if s.len() == 0 {
        failed("unexpected type"@)
    } else {
        match s[0] {
            Err(err) => failed(scan_error_text(err)),
            Ok((event, _)) => if event is SequenceEnd {
                Parsed { result: Ok(sofar), used: 1 }
            } else {
                let first = node(s);
                match first.result {
                    Ok(item) => if 0 < first.used <= s.len() {
                        let rest = items(s.skip(first.used as int), sofar.push(item));
                        Parsed { result: rest.result, used: first.used + rest.used }
                    } else {
                        failed("unexpected type"@)
                    },
                    Err(message) => failed(message),
                }
            },
        }
    }
}

/// The entries of a mapping whose opening has been read, after the entries
/// `sofar`: pairs of a key node and a value node up to the closing of the
/// mapping, which is read too. Both nodes of a pair are read before the key
/// is looked at; a key must be a string.
pub open spec fn entries(s: Seq<Pull>, sofar: Seq<(KeyView, NodeView)>) -> Parsed<
    Seq<(KeyView, NodeView)>,
>
    decreases s.len(), 1nat,
{
    if s.len() == 0 {
        failed("unexpected type"@)
    } else {
        match s[0] {
            Err(err) => failed(scan_error_text(err)),
            Ok((event, _)) => if event is MappingEnd {
                Parsed { result: Ok(sofar), used: 1 }
            } else {
                let key = node(s);
                match key.result {
                    Ok(key_node) => if 0 < key.used < s.len() {
                        let value = node(s.skip(key.used as int));
                        match value.result {
                            Ok(value_node) => if 0 < value.used <= s.len() - key.used {
                                match key_node.value {
                                    ValueView::String(text) => {
                                        let rest = entries(
                                            s.skip((key.used + value.used) as int),
                                            put(
                                                sofar,
                                                SpannedView {
                                                    start: key_node.start,
                                                    end: key_node.end,
                                                    value: text,
                                                },
                                                value_node,
                                            ),
                                        );
                                        Parsed {
                                            result: rest.result,
                                            used: key.used + value.used + rest.used,
                                        }
                                    },
                                    _ => failed("unexpected non-string key"@),
                                }
                            } else {
                                failed("unexpected type"@)
                            },
                            Err(message) => failed(message),
                        }
                    } else {
                        failed("unexpected type"@)
                    },
                    Err(message) => failed(message),
                }
            },
        }
    }
}

/// The views of a node or of the error in its place.
pub open spec fn node_outcome(r: Result<SpannedValue, ContextualError>) -> Result<
    NodeView,
    Seq<char>,
> {
    match r {
        Ok(n) => Ok(n@),
        Err(e) => Err(e@),
    }
}

/// The views of the nodes of `nodes`, in order.
pub open spec fn views(nodes: Seq<SpannedValue>) -> Seq<NodeView> {
    Seq::new(nodes.len(), |i: int| nodes[i]@)
}

/// Whether the next event closes a sequence. The event stays on the stream.
fn sequence_ends(stream: &mut EventStream) -> (r: Result<bool, ContextualError>)
    requires
        is_run(old(stream).pending()),
    ensures
        match r {
            Ok(closes) => {
                &&& final(stream).pending() == old(stream).pending()
                &&& old(stream).pending()[0] matches Ok((event, _))
                &&& closes == event is SequenceEnd
            },
            Err(e) => old(stream).pending()[0] matches Err(err) && e@ == scan_error_text(err),
        },
{
    match stream.peek() {
        Ok(event) => Ok(
            match event {
                Event::SequenceEnd => true,
                _ => false,
            },
        ),
        Err(err) => Err(ContextualError::from(err)),
    }
}

/// Whether the next event closes a mapping. The event stays on the stream.
fn mapping_ends(stream: &mut EventStream) -> (r: Result<bool, ContextualError>)
    requires
        is_run(old(stream).pending()),
    ensures
        match r {
            Ok(closes) => {
                &&& final(stream).pending() == old(stream).pending()
                &&& old(stream).pending()[0] matches Ok((event, _))
                &&& closes == event is MappingEnd
            },
            Err(e) => old(stream).pending()[0] matches Err(err) && e@ == scan_error_text(err),
        },
{
    match stream.peek() {
        Ok(event) => Ok(
            match event {
                Event::MappingEnd => true,
                _ => false,
            },
        ),
        Err(err) => Err(ContextualError::from(err)),
    }
}

/// A node's span is the one place where its first event stands.
pub proof fn node_is_point(s: Seq<Pull>)
    ensures
        node(s).result matches Ok(n) ==> {
            &&& n.start == n.end
            &&& s.len() > 0
            &&& s[0] matches Ok((_, at))
            &&& n.start == at
        },
{
}

/// Reads the node that the stream begins with.
pub fn load_node(stream: &mut EventStream) -> (r: Result<SpannedValue, ContextualError>)
    requires
        is_run(old(stream).pending()),
    ensures
        node_outcome(r) == node(old(stream).pending()).result,
        r is Ok ==> {
            let used = node(old(stream).pending()).used;
            &&& 0 < used < old(stream).pending().len()
            &&& final(stream).pending() == old(stream).pending().skip(used as int)
            &&& is_run(final(stream).pending())
        },
    decreases old(stream).pending().len(), 0nat,
{
    let (event, start) = match stream.next() {
        Ok(pair) => pair,
        Err(err) => {
            return Err(ContextualError::from(err));
        },
    };
    let parsed = match event {
        Event::Scalar(text, style, _, tag) => scalar_value(text, style, tag),
        Event::SequenceStart(_) => match load_items(stream) {
            Ok(array) => {
                proof {
                    array_view(array, views(array@));
                }
                Ok(Value::Array(array))
            },
            Err(e) => Err(e),
        },
        Event::MappingStart(_) => match load_entries(stream) {
            Ok(map) => Ok(Value::Mapping(map)),
            Err(e) => Err(e),
        },
        _ => Err(ContextualError::new("unexpected type")),
    };
    match parsed {
        Ok(value) => Ok(Spanned::new(value, start, start)),
        Err(e) => Err(e),
    }
}

/// Reads the items of a sequence whose opening has been read, and its
/// closing.
fn load_items(stream: &mut EventStream) -> (r: Result<Vec<SpannedValue>, ContextualError>)
    requires
        is_run(old(stream).pending()),
    ensures
        match r {
            Ok(array) => {
                let read = items(old(stream).pending(), Seq::empty());
                &&& read.result == Ok::<Seq<NodeView>, Seq<char>>(views(array@))
                &&& 0 < read.used < old(stream).pending().len()
                &&& final(stream).pending() == old(stream).pending().skip(read.used as int)
                &&& is_run(final(stream).pending())
            },
            Err(e) => items(old(stream).pending(), Seq::empty()).result == Err::<
                Seq<NodeView>,
                Seq<char>,
            >(e@),
        },
    decreases old(stream).pending().len(), 1nat,
{
    let ghost all = stream.pending();
    let ghost mut taken: nat = 0;
    let mut array: Vec<SpannedValue> = Vec::new();
    assert(views(array@) =~= Seq::<NodeView>::empty());
    assert(all.skip(0) =~= all);
    loop
        invariant
            all == old(stream).pending(),
            is_run(stream.pending()),
            taken <= all.len(),
            stream.pending() == all.skip(taken as int),
            items(all, Seq::empty()).result == items(stream.pending(), views(array@)).result,
            items(all, Seq::empty()).result is Ok ==> items(all, Seq::empty()).used == taken
                + items(stream.pending(), views(array@)).used,
        ensures
            stream.pending()[0] matches Ok((event, _)) && event is SequenceEnd,
        decreases stream.pending().len(),
    {
        let ghost here = stream.pending();
        match sequence_ends(stream) {
            Ok(closes) => {
                if closes {
                    break ;
                }
            },
            Err(e) => {
                return Err(e);
            },
        }
        let item = match load_node(stream) {
            Ok(item) => item,
            Err(e) => {
                return Err(e);
            },
        };
        proof {
            let used = node(here).used;
            assert(all.skip(taken as int).skip(used as int) =~= all.skip((taken + used) as int));
            assert(views(array@.push(item)) =~= views(array@).push(item@));
            taken = taken + used;
        }
        array.push(item);
    }
    let _ = stream.next();
    proof {
        assert(all.skip(taken as int).skip(1) =~= all.skip((taken + 1) as int));
    }
    Ok(array)
}

/// Reads the entries of a mapping whose opening has been read, and its
/// closing.
fn load_entries(stream: &mut EventStream) -> (r: Result<ValueMap, ContextualError>)
    requires
        is_run(old(stream).pending()),
    ensures
        match r {
            Ok(map) => {
                let read = entries(old(stream).pending(), Seq::empty());
                &&& read.result == Ok::<Seq<(KeyView, NodeView)>, Seq<char>>(map@)
                &&& 0 < read.used < old(stream).pending().len()
                &&& final(stream).pending() == old(stream).pending().skip(read.used as int)
                &&& is_run(final(stream).pending())
            },
            Err(e) => entries(old(stream).pending(), Seq::empty()).result == Err::<
                Seq<(KeyView, NodeView)>,
                Seq<char>,
            >(e@),
        },
    decreases old(stream).pending().len(), 1nat,
{
    let ghost all = stream.pending();
    let ghost mut taken: nat = 0;
    let mut map = ValueMap::new();
    assert(map@ =~= Seq::<(KeyView, NodeView)>::empty());
    assert(all.skip(0) =~= all);
    loop
        invariant
            all == old(stream).pending(),
            is_run(stream.pending()),
            taken <= all.len(),
            stream.pending() == all.skip(taken as int),
            entries(all, Seq::empty()).result == entries(stream.pending(), map@).result,
            entries(all, Seq::empty()).result is Ok ==> entries(all, Seq::empty()).used == taken
                + entries(stream.pending(), map@).used,
        ensures
            stream.pending()[0] matches Ok((event, _)) && event is MappingEnd,
        decreases stream.pending().len(),
    {
        let ghost here = stream.pending();
        match mapping_ends(stream) {
            Ok(closes) => {
                if closes {
                    break ;
                }
            },
            Err(e) => {
                return Err(e);
            },
        }
        let key = match load_node(stream) {
            Ok(key) => key,
            Err(e) => {
                return Err(e);
            },
        };
        let ghost middle = stream.pending();
        let value = match load_node(stream) {
            Ok(value) => value,
            Err(e) => {
                return Err(e);
            },
        };
        proof {
            node_is_point(here);
        }
        let keyspan = key.span();
        let text = match key.into_inner() {
            Value::String(text) => text,
            _ => {
                return Err(ContextualError::new("unexpected non-string key"));
            },
        };
        map.insert(Spanned::new(text, keyspan.0, keyspan.1), value);
        proof {
            let used = node(here).used + node(middle).used;
            assert(all.skip(taken as int).skip(node(here).used as int).skip(
                node(middle).used as int,
            ) =~= all.skip((taken + used) as int));
            assert(here.skip(node(here).used as int).skip(node(middle).used as int) =~= here.skip(
                used as int,
            ));
            taken = taken + used;
        }
    }
    let _ = stream.next();
    proof {
        assert(all.skip(taken as int).skip(1) =~= all.skip((taken + 1) as int));
    }
    Ok(map)
}

/// The events that frame a document.
pub enum Frame {
    StreamStart,
    DocumentStart,
    DocumentEnd,
    StreamEnd,
}

impl Frame {
    /// Whether `event` is this one.
    pub open spec fn fits(self, event: Event) -> bool {
        match self {
            Frame::StreamStart => event is StreamStart,
            Frame::DocumentStart => event is DocumentStart,
            Frame::DocumentEnd => event is DocumentEnd,
            Frame::StreamEnd => event is StreamEnd,
        }
    }
}

/// What is wrong with `pull` where the event `frame` is due: nothing, the
/// words of the scan error that it is, or `otherwise` for another event.
pub open spec fn objection(pull: Pull, frame: Frame, otherwise: Seq<char>) -> Option<Seq<char>> {
    match pull {
        Ok((event, _)) => if frame.fits(event) {
            None
        } else {
            Some(otherwise)
        },
        Err(err) => Some(scan_error_text(err)),
    }
}

/// What follows the one node of a document: the end of the document and
/// the end of the stream, and nothing else.
pub open spec fn closing(s: Seq<Pull>) -> Option<Seq<char>> {
    match objection(s[0], Frame::DocumentEnd, "expected end of file"@) {
        Some(message) => Some(message),
        None => objection(s[1], Frame::StreamEnd, "expected end of file"@),
    }
}

/// The tree of the one document that the pulls `s` hold: the start of the
/// stream, the start of the document, one node, and the closing.
pub open spec fn document(s: Seq<Pull>) -> Result<NodeView, Seq<char>> {
    match objection(s[0], Frame::StreamStart, "unexpected type"@) {
        Some(message) => Err(message),
        None => match objection(s[1], Frame::DocumentStart, "unexpected type"@) {
            Some(message) => Err(message),
            None => {
                let root = node(s.skip(2));
                match root.result {
                    Ok(tree) => match closing(s.skip(2 + root.used as int)) {
                        Some(message) => Err(message),
                        None => Ok(tree),
                    },
                    Err(message) => Err(message),
                }
            },
        },
    }
}

/// Takes the next pull, which must be the event `frame`.
fn take(stream: &mut EventStream, frame: Frame, otherwise: &str) -> (r: Result<
    (),
    ContextualError,
>)
    requires
        is_run(old(stream).pending()),
    ensures
        match r {
            Ok(_) => {
                &&& objection(old(stream).pending()[0], frame, otherwise@) is None
                &&& !(frame is StreamEnd) ==> final(stream).pending() == old(
                    stream,
                ).pending().skip(1) && is_run(final(stream).pending())
            },
            Err(e) => objection(old(stream).pending()[0], frame, otherwise@) == Some(e@),
        },
{
    let event = match stream.next() {
        Ok((event, _)) => event,
        Err(err) => {
            return Err(ContextualError::from(err));
        },
    };
    let fits = match (frame, event) {
        (Frame::StreamStart, Event::StreamStart) => true,
        (Frame::DocumentStart, Event::DocumentStart) => true,
        (Frame::DocumentEnd, Event::DocumentEnd) => true,
        (Frame::StreamEnd, Event::StreamEnd) => true,
        _ => false,
    };
    if fits {
        Ok(())
    } else {
        Err(ContextualError::new(otherwise))
    }
}

/// Loads the one document of `text`.
pub fn load_stream(text: &str) -> (r: Result<SpannedValue, ContextualError>)
    ensures
        node_outcome(r) == document(yaml_events(text@)),
{
    let mut stream = EventStream::new(text);
    let ghost all = stream.pending();
    match take(&mut stream, Frame::StreamStart, "unexpected type") {
        Ok(_) => {},
        Err(e) => {
            return Err(e);
        },
    }
    match take(&mut stream, Frame::DocumentStart, "unexpected type") {
        Ok(_) => {},
        Err(e) => {
            return Err(e);
        },
    }
    assert(stream.pending() =~= all.skip(2));
    let tree = match load_node(&mut stream) {
        Ok(tree) => tree,
        Err(e) => {
            return Err(e);
        },
    };
    let ghost rest = stream.pending();
    assert(rest =~= all.skip(2 + node(all.skip(2)).used as int));
    match take(&mut stream, Frame::DocumentEnd, "expected end of file") {
        Ok(_) => {},
        Err(e) => {
            return Err(e);
        },
    }
    assert(stream.pending()[0] == rest[1]);
    match take(&mut stream, Frame::StreamEnd, "expected end of file") {
        Ok(_) => {},
        Err(e) => {
            return Err(e);
        },
    }
    Ok(tree)
}

/// What a load comes to once the validator has spoken: the tree if it was
/// accepted, the validator's error if not.
pub fn judged(tree: SpannedValue, verdict: Result<(), ContextualError>) -> (r: Result<
    SpannedValue,
    Error,
>)
    ensures
        match verdict {
            Ok(_) => r == Ok::<SpannedValue, Error>(tree),
            Err(e) => r == Err::<SpannedValue, Error>(Error::Contextual(e)),
        },
{
    match verdict {
        Ok(_) => Ok(tree),
        Err(e) => Err(Error::Contextual(e)),
    }
}

/// Loads the one document of `text` and shows the tree to `validator`. A
/// text that does not load is never shown; a tree that is shown is shown
/// whole and once.
pub fn load_from_str<V: Validator>(text: &str, validator: &V) -> (r: Result<SpannedValue, Error>)
    ensures
        match document(yaml_events(text@)) {
            Ok(tree) => match r {
                Ok(loaded) => loaded@ == tree,
                Err(e) => e is Contextual,
            },
            Err(message) => r matches Err(Error::Contextual(e)) && e@ == message,
        },
{
    let tree = match load_stream(text) {
        Ok(tree) => tree,
        Err(e) => {
            return Err(Error::Contextual(e));
        },
    };
    let verdict = validator.validate(&tree);
    judged(tree, verdict)
}

} // verus!
