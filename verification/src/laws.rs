//! What holds of every tree that the loader builds, and of every text that
//! it turns away.

use crate::data::has_key;
use crate::data::key_index;
use crate::data::keys_distinct;
use crate::data::put;
use crate::data::KeyView;
use crate::data::NodeView;
use crate::data::ValueView;
use crate::events::ends_run;
use crate::events::is_run;
use crate::events::Pull;
use crate::scalar::scalar;
use crate::scalar::yaml_resolve;
use crate::yaml::document;
use crate::yaml::entries;
use crate::yaml::items;
use crate::yaml::node;
use crate::yaml::objection;
use crate::yaml::Frame;
use vstd::prelude::*;
use yaml_rust::parser::Event;
use yaml_rust::scanner::TokenType;

verus! {

/// Whether a mapping's entries are in order: no key comes twice, every key
/// has a span, and every node is well formed.
pub open spec fn entries_well_formed(pairs: Seq<(KeyView, NodeView)>) -> bool
    decreases pairs, 0nat,
{
    &&& keys_distinct(pairs)
    &&& forall|i: int|
        0 <= i < pairs.len() ==> {
            &&& (#[trigger] pairs[i]).0.start.at_or_before(pairs[i].0.end)
            &&& well_formed(pairs[i].1)
        }
}

/// Whether a tree is well formed: no span, of a node or of a key, ends
/// before it starts, and no mapping has a key twice.
pub open spec fn well_formed(n: NodeView) -> bool
    decreases n, 1nat,
{
    &&& n.start.at_or_before(n.end)
    &&& match n.value {
        ValueView::Array(nodes) => forall|i: int|
            0 <= i < nodes.len() ==> well_formed(#[trigger] nodes[i]),
        ValueView::Mapping(pairs) => entries_well_formed(pairs),
        _ => true,
    }
}

/// What `put` does: the key holds the node and is the last entry; a key
/// that was there keeps its span; every other entry stays, in its order; and
/// entries that were in order are in order afterwards.
pub proof fn put_keeps_entries(pairs: Seq<(KeyView, NodeView)>, key: KeyView, n: NodeView)
    requires
        keys_distinct(pairs),
    ensures
        keys_distinct(put(pairs, key, n)),
        put(pairs, key, n).len() == pairs.len() + if has_key(pairs, key.value) {
            0int
        } else {
            1int
        },
        put(pairs, key, n).last().1 == n,
        put(pairs, key, n).last().0.value == key.value,
        put(pairs, key, n).last().0 == if has_key(pairs, key.value) {
            pairs[key_index(pairs, key.value)].0
        } else {
            key
        },
        forall|j: int|
            0 <= j < put(pairs, key, n).len() - 1 ==> pairs.contains(
                #[trigger] put(pairs, key, n)[j],
            ),
        entries_well_formed(pairs) && key.start.at_or_before(key.end) && well_formed(n)
            ==> entries_well_formed(put(pairs, key, n)),
{
    let after = put(pairs, key, n);
    if has_key(pairs, key.value) {
        let at = key_index(pairs, key.value);
        let kept = pairs.remove(at);
        assert forall|j: int| 0 <= j < kept.len() implies (#[trigger] kept[j]) == pairs[if j
            < at {
            j
        } else {
            j + 1
        }] by {}
        assert forall|i: int, j: int| 0 <= i < j < after.len() implies (#[trigger] after[i]).0.value
            != (#[trigger] after[j]).0.value by {
            let before_i = if i < at {
                i
            } else {
                i + 1
            };
            assert(after[i] == kept[i]);
            assert(kept[i] == pairs[before_i]);
            if j < after.len() - 1 {
                let before_j = if j < at {
                    j
                } else {
                    j + 1
                };
                assert(after[j] == kept[j]);
                assert(kept[j] == pairs[before_j]);
            } else {
                assert(after[j].0 == pairs[at].0);
            }
        }
        assert forall|j: int| 0 <= j < after.len() - 1 implies pairs.contains(
            #[trigger] after[j],
        ) by {
            let before = if j < at {
                j
            } else {
                j + 1
            };
            assert(after[j] == kept[j]);
            assert(pairs[before] == after[j]);
        }
        if entries_well_formed(pairs) && key.start.at_or_before(key.end) && well_formed(n) {
            assert forall|j: int| 0 <= j < after.len() implies (#[trigger] after[j]).0.start.at_or_before(
            after[j].0.end) && well_formed(after[j].1) by {
                if j < after.len() - 1 {
                    let before = if j < at {
                        j
                    } else {
                        j + 1
                    };
                    assert(after[j] == kept[j]);
                    assert(pairs[before] == after[j]);
                } else {
                    assert(after[j].0 == pairs[at].0);
                }
            }
        }
    } else {
        assert forall|i: int, j: int| 0 <= i < j < after.len() implies (#[trigger] after[i]).0.value
            != (#[trigger] after[j]).0.value by {
            assert(after[i] == pairs[i]);
            if j < pairs.len() {
                assert(after[j] == pairs[j]);
            }
        }
        assert forall|j: int| 0 <= j < after.len() - 1 implies pairs.contains(
            #[trigger] after[j],
        ) by {
            assert(pairs[j] == after[j]);
        }
        if entries_well_formed(pairs) && key.start.at_or_before(key.end) && well_formed(n) {
            assert forall|j: int| 0 <= j < after.len() implies (#[trigger] after[j]).0.start.at_or_before(
            after[j].0.end) && well_formed(after[j].1) by {
                if j < pairs.len() {
                    assert(after[j] == pairs[j]);
                }
            }
        }
    }
}

/// Whether a pull is one that a tree can be built over: the opening or the
/// closing of a sequence or of a mapping, or a scalar that has a value.
pub open spec fn sound(pull: Pull) -> bool {
    match pull {
        Ok((event, _)) => match event {
            Event::Scalar(text, style, _, tag) => scalar(text@, style, tag, yaml_resolve(text@))
                is Ok,
            Event::SequenceStart(_) => true,
            Event::SequenceEnd => true,
            Event::MappingStart(_) => true,
            Event::MappingEnd => true,
            _ => false,
        },
        Err(_) => false,
    }
}

/// Whether a pull is a plain scalar that stands for null: one without a tag
/// whose text resolves to null, or one with the tag `!!null`.
pub open spec fn null_scalar(pull: Pull) -> bool {
    match pull {
        Ok((event, _)) => match event {
            Event::Scalar(text, style, _, tag) => style is Plain && match tag {
                Some(TokenType::Tag(handle, suffix)) => handle@ == "!!"@ && suffix@ == "null"@,
                _ => yaml_resolve(text@) is Null,
            },
            _ => false,
        },
        Err(_) => false,
    }
}

/// A null scalar has no value.
pub proof fn null_is_unsound(pull: Pull)
    requires
        null_scalar(pull),
    ensures
        !sound(pull),
{
    reveal_strlit("null");
    reveal_strlit("bool");
    reveal_strlit("int");
    reveal_strlit("float");
    if let Ok((Event::Scalar(text, style, _, Some(TokenType::Tag(handle, suffix))), _)) = pull {
        assert("null"@.len() == 4);
        assert("bool"@[0] == 'b');
        assert("int"@.len() == 3);
        assert("float"@.len() == 5);
    }
}

/// A node that can be read takes at least one pull and no more than there
/// are; every pull that it takes is sound; the kind of its value is the
/// kind of its first event; and it is well formed.
pub proof fn node_is_sound(s: Seq<Pull>)
    ensures
        node(s).result matches Ok(n) ==> {
            &&& 0 < node(s).used <= s.len()
            &&& forall|i: int| 0 <= i < node(s).used ==> sound(#[trigger] s[i])
            &&& well_formed(n)
            &&& s[0] matches Ok((event, at))
            &&& n.start == at
            &&& n.end == at
            &&& n.value is Array <==> event is SequenceStart
            &&& n.value is Mapping <==> event is MappingStart
            &&& !(n.value is Array) && !(n.value is Mapping) <==> event is Scalar
        },
    decreases s.len(), 0nat,
{
    if s.len() > 0 {
        if let Ok((event, at)) = s[0] {
            match event {
                Event::SequenceStart(_) => {
                    let rest = s.skip(1);
                    items_are_sound(rest, Seq::empty());
                    if items(rest, Seq::empty()).result is Ok {
                        assert forall|i: int| 0 <= i < node(s).used implies sound(
                            #[trigger] s[i],
                        ) by {
                            if i > 0 {
                                assert(s[i] == rest[i - 1]);
                            }
                        }
                    }
                },
                Event::MappingStart(_) => {
                    let rest = s.skip(1);
                    entries_are_sound(rest, Seq::empty());
                    if entries(rest, Seq::empty()).result is Ok {
                        assert forall|i: int| 0 <= i < node(s).used implies sound(
                            #[trigger] s[i],
                        ) by {
                            if i > 0 {
                                assert(s[i] == rest[i - 1]);
                            }
                        }
                    }
                },
                _ => {},
            }
        }
    }
}

/// The items of a sequence that can be read take at least one pull and no
/// more than there are; every pull that they take is sound; and items that
/// follow well-formed ones are well formed.
pub proof fn items_are_sound(s: Seq<Pull>, sofar: Seq<NodeView>)
    requires
        forall|j: int| 0 <= j < sofar.len() ==> well_formed(#[trigger] sofar[j]),
    ensures
        items(s, sofar).result matches Ok(nodes) ==> {
            &&& 0 < items(s, sofar).used <= s.len()
            &&& forall|i: int| 0 <= i < items(s, sofar).used ==> sound(#[trigger] s[i])
            &&& forall|j: int| 0 <= j < nodes.len() ==> well_formed(#[trigger] nodes[j])
            &&& nodes.len() >= sofar.len()
        },
    decreases s.len(), 1nat,
{
    if s.len() > 0 {
        if let Ok((event, _)) = s[0] {
            if !(event is SequenceEnd) {
                node_is_sound(s);
                let first = node(s);
                if let Ok(item) = first.result {
                    let rest = s.skip(first.used as int);
                    let more = sofar.push(item);
                    assert forall|j: int| 0 <= j < more.len() implies well_formed(
                        #[trigger] more[j],
                    ) by {
                        if j < sofar.len() {
                            assert(more[j] == sofar[j]);
                        }
                    }
                    items_are_sound(rest, more);
                    if items(rest, more).result is Ok {
                        assert forall|i: int| 0 <= i < items(s, sofar).used implies sound(
                            #[trigger] s[i],
                        ) by {
                            if i >= first.used {
                                assert(s[i] == rest[i - first.used]);
                            }
                        }
                    }
                }
            }
        }
    }
}

/// The entries of a mapping that can be read take at least one pull and no
/// more than there are; every pull that they take is sound; and entries that
/// follow entries in order are in order.
pub proof fn entries_are_sound(s: Seq<Pull>, sofar: Seq<(KeyView, NodeView)>)
    requires
        entries_well_formed(sofar),
    ensures
        entries(s, sofar).result matches Ok(pairs) ==> {
            &&& 0 < entries(s, sofar).used <= s.len()
            &&& forall|i: int| 0 <= i < entries(s, sofar).used ==> sound(#[trigger] s[i])
            &&& entries_well_formed(pairs)
        },
    decreases s.len(), 1nat,
{
    if s.len() > 0 {
        if let Ok((event, _)) = s[0] {
            if !(event is MappingEnd) {
                node_is_sound(s);
                let key = node(s);
                if let Ok(key_node) = key.result {
                    if 0 < key.used < s.len() {
                        let middle = s.skip(key.used as int);
                        node_is_sound(middle);
                        let value = node(middle);
                        if let Ok(value_node) = value.result {
                            if let ValueView::String(text) = key_node.value {
                                let used = key.used + value.used;
                                let rest = s.skip(used as int);
                                let spanned_key = crate::data::SpannedView {
                                    start: key_node.start,
                                    end: key_node.end,
                                    value: text,
                                };
                                let more = put(sofar, spanned_key, value_node);
                                put_keeps_entries(sofar, spanned_key, value_node);
                                entries_are_sound(rest, more);
                                if entries(rest, more).result is Ok {
                                    assert forall|i: int|
                                        0 <= i < entries(s, sofar).used implies sound(
                                        #[trigger] s[i],
                                    ) by {
                                        if i >= used {
                                            assert(s[i] == rest[i - used]);
                                        } else if i >= key.used {
                                            assert(s[i] == middle[i - key.used]);
                                        }
                                    }
                                }
                            }
                        }
                    }
                }
            }
        }
    }
}

/// A run that holds a null scalar anywhere gives no tree: if a document
/// loads, none of its pulls is a null scalar, the tree is well formed, and
/// the run is the frame of the document around the pulls of its one node.
pub proof fn loaded_document_is_sound(s: Seq<Pull>)
    requires
        is_run(s),
    ensures
        document(s) matches Ok(tree) ==> {
            &&& well_formed(tree)
            &&& s.len() == node(s.skip(2)).used + 4
            &&& forall|i: int| 0 <= i < s.len() ==> !null_scalar(#[trigger] s[i])
        },
{
    if let Ok(tree) = document(s) {
        let inner = s.skip(2);
        let used = node(inner).used as int;
        assert(!ends_run(s[0]));
        assert(!ends_run(s[1]));
        node_is_sound(inner);
        assert forall|i: int| 2 <= i < 2 + used implies sound(#[trigger] s[i]) by {
            assert(s[i] == inner[i - 2]);
        }
        assert(sound(s[1 + used]));
        let after = s.skip(2 + used);
        assert(after[0] == s[2 + used]);
        assert(!ends_run(s[2 + used]));
        assert(after[1] == s[3 + used]);
        assert(ends_run(s[3 + used]));
        assert forall|i: int| 0 <= i < s.len() implies !null_scalar(#[trigger] s[i]) by {
            if 2 <= i < 2 + used {
                if null_scalar(s[i]) {
                    null_is_unsound(s[i]);
                }
            }
        }
    }
}

/// A key that is not a string ends the reading of a mapping: where the two
/// nodes of an entry can be read and the first is no string, what comes of
/// the entries is the error that says so.
pub proof fn key_must_be_string(s: Seq<Pull>, sofar: Seq<(KeyView, NodeView)>)
    requires
        node(s).result matches Ok(key) && !(key.value is String),
        node(s.skip(node(s).used as int)).result is Ok,
    ensures
        entries(s, sofar).result == Err::<Seq<(KeyView, NodeView)>, Seq<char>>(
            "unexpected non-string key"@,
        ),
{
    node_is_sound(s);
    node_is_sound(s.skip(node(s).used as int));
}

/// The same of a whole mapping: where the first key of a mapping is no
/// string and the node after it can be read, the mapping is refused.
pub proof fn mapping_key_must_be_string(s: Seq<Pull>)
    requires
        s.len() > 0,
        s[0] matches Ok((event, _)) && event is MappingStart,
        node(s.skip(1)).result matches Ok(key) && !(key.value is String),
        node(s.skip(1).skip(node(s.skip(1)).used as int)).result is Ok,
    ensures
        node(s).result == Err::<NodeView, Seq<char>>("unexpected non-string key"@),
{
    key_must_be_string(s.skip(1), Seq::empty());
}

/// Whatever follows the one node of a document but the end of the document
/// and then the end of the stream is refused: where the frame opens, the
/// node can be read and an event follows it, the document is refused as
/// going on past its end if that event does not end the document, or if it
/// does and the event after it does not end the stream.
pub proof fn document_must_end(s: Seq<Pull>)
    requires
        s.len() > 2 + node(s.skip(2)).used,
        objection(s[0], Frame::StreamStart, "unexpected type"@) is None,
        objection(s[1], Frame::DocumentStart, "unexpected type"@) is None,
        node(s.skip(2)).result is Ok,
        s[2 + node(s.skip(2)).used as int] matches Ok((first, _)) && (first is DocumentEnd ==> {
            &&& s.len() > 3 + node(s.skip(2)).used
            &&& s[3 + node(s.skip(2)).used as int] matches Ok((second, _))
            &&& !(second is StreamEnd)
        }),
    ensures
        document(s) == Err::<NodeView, Seq<char>>("expected end of file"@),
{
    let used = node(s.skip(2)).used as int;
    let after = s.skip(2 + used);
    assert(after[0] == s[2 + used]);
    if s.len() > 3 + used {
        assert(after[1] == s[3 + used]);
    }
}

} // verus!
