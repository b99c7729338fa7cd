//! Bounds on configuration files in YAML.
use crate::bytes::text_from_utf8;
use crate::text::same_text;
use vstd::prelude::*;
use vstd::utf8::{decode_utf8, encode_utf8, valid_utf8};

verus! {

/// The longest configuration file.
pub const MAX_YAML_FILE: usize = 524_288;

/// How many nodes a file may have.
pub const MAX_YAML_NODES: usize = 4096;

/// How deep nodes may be nested.
pub const MAX_YAML_DEPTH: usize = 32;

/// The longest scalar in bytes.
pub const MAX_YAML_SCALAR: usize = 4096;

#[derive(Clone, Copy, Debug, PartialEq, Eq, Structural)]
pub enum YamlError {
    TooLarge,
    Parse,
    /// The file exceeds the bounds on its structure.
    Bounds,
}

/// What a parser reports of a text.
pub enum YamlEvent {
    /// The text is read to its end.
    StreamEnd,
    Alias,
    /// A scalar, and whether it stands without quotes.
    Scalar { value: String, plain: bool, anchor: usize, tagged: bool },
    /// A sequence or a mapping starts.
    Open { mapping: bool, anchor: usize, tagged: bool },
    /// A sequence or a mapping ends.
    Close,
    /// Something that adds no node.
    Other,
}

#[verifier::ext_equal]
pub enum EventModel {
    StreamEnd,
    Alias,
    Scalar { value: Seq<char>, plain: bool, anchor: usize, tagged: bool },
    Open { mapping: bool, anchor: usize, tagged: bool },
    Close,
    Other,
}

impl View for YamlEvent {
    type V = EventModel;

    open spec fn view(&self) -> EventModel {
        match *self {
            YamlEvent::StreamEnd => EventModel::StreamEnd,
            YamlEvent::Alias => EventModel::Alias,
            YamlEvent::Scalar { value, plain, anchor, tagged } => EventModel::Scalar {
                value: value@,
                plain,
                anchor,
                tagged,
            },
            YamlEvent::Open { mapping, anchor, tagged } => EventModel::Open { mapping, anchor, tagged },
            YamlEvent::Close => EventModel::Close,
            YamlEvent::Other => EventModel::Other,
        }
    }
}

/// What the events of a list say.
pub open spec fn event_models(events: Seq<YamlEvent>) -> Seq<EventModel> {
    Seq::new(events.len(), |i: int| events[i]@)
}

/// A parser of `yaml_rust2`.
#[verifier::external_type_specification]
#[verifier::external_body]
#[verifier::reject_recursive_types(T)]
pub struct ExYamlParser<T>(yaml_rust2::parser::Parser<T>);

/// The events that the parser of `yaml_rust2` reports of a text, up to and with
/// the end of the text or up to the place where the text is no YAML.
pub uninterp spec fn yaml_events(text: Seq<char>) -> Seq<EventModel>;

/// The events that a parser still holds, up to and with the end of the text or
/// up to the place where the text is no YAML.
pub uninterp spec fn events_left(parser: yaml_rust2::parser::Parser<std::str::Chars<'_>>) -> Seq<
    EventModel,
>;

/// Calls `Parser::new_from_str` of `yaml_rust2`. What the parser holds depends
/// on the text alone.
#[verifier::external_body]
fn open_parser(text: &str) -> (r: yaml_rust2::parser::Parser<std::str::Chars<'_>>)
    ensures
        events_left(r) == yaml_events(text@),
{
    yaml_rust2::parser::Parser::new_from_str(text)
}

/// Calls `Parser::next_token` of `yaml_rust2`, which hands out the next event
/// that the parser holds, or fails where the text is no YAML. The end of the
/// text is the last event.
#[verifier::external_body]
fn next_event(parser: &mut yaml_rust2::parser::Parser<std::str::Chars<'_>>) -> (r: Option<YamlEvent>)
    ensures
        match r {
            Some(event) => events_left(*old(parser)).len() > 0 && event@ == events_left(*old(parser))[0]
                && if event@ == EventModel::StreamEnd {
                events_left(*old(parser)).len() == 1
            } else {
                events_left(*final(parser)) == events_left(*old(parser)).drop_first()
            },
            None => events_left(*old(parser)).len() == 0,
        },
{
    Some(match parser.next_token().ok()?.0 {
        yaml_rust2::Event::StreamEnd => YamlEvent::StreamEnd,
        yaml_rust2::Event::Alias(_) => YamlEvent::Alias,
        yaml_rust2::Event::Scalar(value, style, anchor, tag) => YamlEvent::Scalar {
            value,
            plain: matches!(style, yaml_rust2::scanner::TScalarStyle::Plain),
            anchor,
            tagged: tag.is_some(),
        },
        yaml_rust2::Event::SequenceStart(anchor, tag) => YamlEvent::Open { mapping: false, anchor, tagged: tag.is_some() },
        yaml_rust2::Event::MappingStart(anchor, tag) => YamlEvent::Open { mapping: true, anchor, tagged: tag.is_some() },
        yaml_rust2::Event::SequenceEnd | yaml_rust2::Event::MappingEnd => YamlEvent::Close,
        _ => YamlEvent::Other,
    })
}

/// The events of a text.
fn parse_events(text: &str) -> (r: Vec<YamlEvent>)
    ensures
        event_models(r@) == yaml_events(text@),
{
    let mut parser = open_parser(text);
    let mut events: Vec<YamlEvent> = Vec::new();
    assert(event_models(events@) + events_left(parser) =~= yaml_events(text@));
    loop
        invariant
            event_models(events@) + events_left(parser) == yaml_events(text@),
        decreases events_left(parser).len(),
    {
        let ghost before = events@;
        let ghost left = events_left(parser);
        let event = match next_event(&mut parser) {
            Some(event) => event,
            None => {
                assert(event_models(events@) =~= yaml_events(text@));
                return events;
            },
        };
        let ended = match &event {
            YamlEvent::StreamEnd => true,
            _ => false,
        };
        events.push(event);
        assert(event_models(events@) =~= event_models(before).push(left[0]));
        if ended {
            assert(event_models(events@) =~= yaml_events(text@));
            return events;
        }
        assert(event_models(events@) + events_left(parser) =~= event_models(before) + left);
    }
}

/// How far the look at the events of a file has come.
pub enum Progress {
    Going { depth: int, nodes: int },
    Done,
    Failed,
}

/// One event more.
pub open spec fn event_step(progress: Progress, event: EventModel) -> Progress {
    match progress {
        Progress::Going { depth, nodes } => match event {
            EventModel::StreamEnd => Progress::Done,
            EventModel::Alias => Progress::Failed,
            EventModel::Scalar { value, anchor, tagged, .. } => if anchor != 0 || tagged || encode_utf8(
                value,
            ).len() > MAX_YAML_SCALAR || nodes + 1 > MAX_YAML_NODES {
                Progress::Failed
            } else {
                Progress::Going { depth, nodes: nodes + 1 }
            },
            EventModel::Open { anchor, tagged, .. } => if anchor != 0 || tagged || depth + 1 > MAX_YAML_DEPTH
                || nodes + 1 > MAX_YAML_NODES {
                Progress::Failed
            } else {
                Progress::Going { depth: depth + 1, nodes: nodes + 1 }
            },
            EventModel::Close => if depth == 0 {
                Progress::Failed
            } else {
                Progress::Going { depth: depth - 1, nodes }
            },
            EventModel::Other => progress,
        },
        _ => progress,
    }
}

/// How far the look at the first `n` events has come.
pub open spec fn progress_after(events: Seq<EventModel>, n: nat) -> Progress
    decreases n,
{
    if n == 0 {
        Progress::Going { depth: 0, nodes: 0 }
    } else {
        event_step(progress_after(events, (n - 1) as nat), events[n - 1])
    }
}

/// What the events of a text say of it: it is within bounds, it is not, or it
/// is no YAML.
pub open spec fn events_verdict(events: Seq<EventModel>) -> Result<(), YamlError> {
    match progress_after(events, events.len()) {
        Progress::Done => Ok(()),
        Progress::Failed => Err(YamlError::Bounds),
        Progress::Going { .. } => Err(YamlError::Parse),
    }
}

proof fn lemma_progress_ends(events: Seq<EventModel>, i: nat, n: nat)
    requires
        i <= n,
        !(progress_after(events, i) is Going),
    ensures
        progress_after(events, n) == progress_after(events, i),
    decreases n,
{
    if i < n {
        lemma_progress_ends(events, i, (n - 1) as nat);
    }
}

/// Whether a file with the given events is within bounds.
pub fn check_events(events: &Vec<YamlEvent>) -> (r: Result<(), YamlError>)
    ensures
        r == events_verdict(event_models(events@)),
{
    let ghost all = event_models(events@);
    let mut depth: usize = 0;
    let mut nodes: usize = 0;
    let mut i: usize = 0;
    while i < events.len()
        invariant
            all == event_models(events@),
            i <= events@.len(),
            depth <= MAX_YAML_DEPTH,
            nodes <= MAX_YAML_NODES,
            progress_after(all, i as nat) == (Progress::Going { depth: depth as int, nodes: nodes as int }),
        decreases events@.len() - i,
    {
        let event = &events[i];
        assert(all[i as int] == event@);
        let fits = match event {
            YamlEvent::StreamEnd => {
                proof {
                    lemma_progress_ends(all, (i + 1) as nat, all.len());
                }
                return Ok(());
            },
            YamlEvent::Alias => false,
            YamlEvent::Scalar { value, anchor, tagged, .. } => {
                nodes = nodes + 1;
                *anchor == 0 && !*tagged && value.as_str().as_bytes().len() <= MAX_YAML_SCALAR
            },
            YamlEvent::Open { anchor, tagged, .. } => {
                depth = depth + 1;
                nodes = nodes + 1;
                *anchor == 0 && !*tagged
            },
            YamlEvent::Close => if depth == 0 {
                false
            } else {
                depth = depth - 1;
                true
            },
            YamlEvent::Other => true,
        };
        if !fits || depth > MAX_YAML_DEPTH || nodes > MAX_YAML_NODES {
            proof {
                lemma_progress_ends(all, (i + 1) as nat, all.len());
            }
            return Err(YamlError::Bounds);
        }
        i = i + 1;
    }
    Err(YamlError::Parse)
}

/// A scalar key of a mapping: its text, and whether it stands without quotes.
pub type KeyModel = (Seq<char>, bool);

/// A sequence or a mapping that is not at its end yet. In a mapping keys and
/// values come in turn.
#[verifier::ext_equal]
pub struct LevelModel {
    pub mapping: bool,
    pub key_next: bool,
    pub keys: Seq<KeyModel>,
}

/// The levels that are open, after a value that is no scalar key came to its end
/// in the innermost.
pub open spec fn value_ended(levels: Seq<LevelModel>) -> Seq<LevelModel> {
    if levels.len() == 0 {
        levels
    } else {
        levels.drop_last().push(LevelModel { key_next: !levels.last().key_next, ..levels.last() })
    }
}

/// The levels that are open after one event more; `None` where a mapping names a
/// key twice.
pub open spec fn level_step(levels: Seq<LevelModel>, event: EventModel) -> Option<Seq<LevelModel>> {
    match event {
        EventModel::Scalar { value, plain, .. } => if levels.len() > 0 && levels.last().mapping
            && levels.last().key_next {
            if levels.last().keys.contains((value, plain)) {
                None
            } else {
                Some(
                    levels.drop_last().push(
                        LevelModel {
                            mapping: true,
                            key_next: false,
                            keys: levels.last().keys.push((value, plain)),
                        },
                    ),
                )
            }
        } else {
            Some(value_ended(levels))
        },
        EventModel::Alias => Some(value_ended(levels)),
        EventModel::Open { mapping, .. } => Some(
            levels.push(LevelModel { mapping, key_next: true, keys: Seq::empty() }),
        ),
        EventModel::Close => if levels.len() == 0 {
            Some(levels)
        } else {
            Some(value_ended(levels.drop_last()))
        },
        _ => Some(levels),
    }
}

/// The levels that are open after the first `n` events; `None` where a mapping
/// named a key twice by then.
pub open spec fn levels_after(events: Seq<EventModel>, n: nat) -> Option<Seq<LevelModel>>
    decreases n,
{
    if n == 0 {
        Some(Seq::empty())
    } else {
        match levels_after(events, (n - 1) as nat) {
            Some(levels) => level_step(levels, events[n - 1]),
            None => None,
        }
    }
}

/// Whether a mapping names a scalar key twice.
pub open spec fn repeats_key(events: Seq<EventModel>) -> bool {
    levels_after(events, events.len()) is None
}

proof fn lemma_repeated_by_then(events: Seq<EventModel>, i: nat, n: nat)
    requires
        i <= n,
        levels_after(events, i) is None,
    ensures
        levels_after(events, n) is None,
    decreases n,
{
    if i < n {
        lemma_repeated_by_then(events, i, (n - 1) as nat);
    }
}

/// The key that a scalar would be.
pub open spec fn key_of(event: EventModel) -> KeyModel {
    (event->Scalar_value, event->plain)
}

proof fn lemma_keys_are_known(events: Seq<EventModel>, start: int, n: nat)
    requires
        0 <= start,
        start + 2 * n < events.len(),
        events[start] matches EventModel::Open { mapping, .. } && mapping,
        forall|m: int| start < m <= start + 2 * n ==> (#[trigger] events[m]) is Scalar,
    ensures
        levels_after(events, (start + 1 + 2 * n) as nat) matches Some(levels) ==> {
            &&& levels.len() > 0
            &&& levels.last().mapping
            &&& levels.last().key_next
            &&& forall|m: int|
                0 <= m < n ==> levels.last().keys.contains(key_of(#[trigger] events[start + 1 + 2 * m]))
        },
    decreases n,
{
    if n > 0 {
        lemma_keys_are_known(events, start, (n - 1) as nat);
        let at = start + 1 + 2 * (n - 1);
        let before = levels_after(events, at as nat);
        let named = levels_after(events, (at + 1) as nat);
        let valued = levels_after(events, (at + 2) as nat);
        assert(events[at] is Scalar && events[at + 1] is Scalar);
        if let Some(levels) = before {
            if let Some(after) = named {
                let keys = levels.last().keys;
                assert(after.last().keys == keys.push(key_of(events[at])));
                assert(valued == Some(value_ended(after)));
                let last = valued->0.last().keys;
                assert forall|m: int| 0 <= m < n implies last.contains(
                    key_of(#[trigger] events[start + 1 + 2 * m]),
                ) by {
                    if m < n - 1 {
                        let key = key_of(events[start + 1 + 2 * m]);
                        assert(keys.contains(key));
                        let k = keys.index_of(key);
                        assert(last[k] == key);
                    } else {
                        assert(last[keys.len() as int] == key_of(events[at]));
                    }
                }
            }
        }
        assert(valued == levels_after(events, (start + 1 + 2 * n) as nat));
    }
}

/// A mapping of scalars that names a key twice is refused, wherever it stands in
/// a text: `events[start]` opens it, and its keys `i` and `j` are the same.
pub proof fn law_repeated_keys_are_refused(events: Seq<EventModel>, start: int, i: int, j: int)
    requires
        0 <= start,
        0 <= i < j,
        start + 1 + 2 * j < events.len(),
        events[start] matches EventModel::Open { mapping, .. } && mapping,
        forall|m: int| start < m <= start + 1 + 2 * j ==> (#[trigger] events[m]) is Scalar,
        key_of(events[start + 1 + 2 * i]) == key_of(events[start + 1 + 2 * j]),
    ensures
        repeats_key(events),
        forall|text: Seq<char>| #[trigger]
            yaml_events(text) == events ==> text_verdict(text) == match events_verdict(events) {
                Ok(()) => Err::<(), YamlError>(YamlError::Parse),
                Err(error) => Err(error),
            },
{
    lemma_keys_are_known(events, start, j as nat);
    let at = start + 1 + 2 * j;
    assert(events[at] is Scalar);
    assert(levels_after(events, (at + 1) as nat) is None);
    lemma_repeated_by_then(events, (at + 1) as nat, events.len());
}

/// A sequence or a mapping that is not at its end yet.
struct Level {
    mapping: bool,
    key_next: bool,
    keys: Vec<(String, bool)>,
}

spec fn key_models(keys: Seq<(String, bool)>) -> Seq<KeyModel> {
    Seq::new(keys.len(), |i: int| (keys[i].0@, keys[i].1))
}

impl View for Level {
    type V = LevelModel;

    closed spec fn view(&self) -> LevelModel {
        LevelModel { mapping: self.mapping, key_next: self.key_next, keys: key_models(self.keys@) }
    }
}

spec fn level_models(levels: Seq<Level>) -> Seq<LevelModel> {
    Seq::new(levels.len(), |i: int| levels[i]@)
}

/// A value came to its end in the innermost level.
fn end_value(levels: &mut Vec<Level>)
    ensures
        level_models(final(levels)@) == value_ended(level_models(old(levels)@)),
{
    let ghost before = level_models(levels@);
    if let Some(level) = levels.pop() {
        assert(level_models(levels@) =~= before.drop_last());
        levels.push(Level { mapping: level.mapping, key_next: !level.key_next, keys: level.keys });
    }
    assert(level_models(levels@) =~= value_ended(before));
}

fn has_key(keys: &Vec<(String, bool)>, value: &str, plain: bool) -> (r: bool)
    ensures
        r == key_models(keys@).contains((value@, plain)),
{
    let mut i: usize = 0;
    while i < keys.len()
        invariant
            i <= keys@.len(),
            forall|j: int| 0 <= j < i ==> (#[trigger] key_models(keys@)[j]) != (value@, plain),
        decreases keys@.len() - i,
    {
        let (known, unquoted) = &keys[i];
        assert(key_models(keys@)[i as int] == (known@, *unquoted));
        if *unquoted == plain && same_text(known.as_str(), value) {
            return true;
        }
        i = i + 1;
    }
    false
}

/// A scalar came. Says whether it is a key that its mapping has already.
fn scalar_repeats(levels: &mut Vec<Level>, value: &str, plain: bool, Ghost(event): Ghost<EventModel>) -> (r:
    bool)
    requires
        event matches EventModel::Scalar { value: v, plain: p, .. } && v == value@ && p == plain,
    ensures
        match level_step(level_models(old(levels)@), event) {
            Some(after) => !r && level_models(final(levels)@) == after,
            None => r,
        },
{
    let ghost before = level_models(levels@);
    match levels.pop() {
        None => {
            assert(level_models(levels@) =~= before);
            false
        },
        Some(mut level) => {
            assert(level_models(levels@) =~= before.drop_last());
            assert(before.last() == level@);
            if level.mapping && level.key_next {
                if has_key(&level.keys, value, plain) {
                    return true;
                }
                let ghost keys = level@.keys;
                level.keys.push((value.to_string(), plain));
                level.key_next = false;
                assert(level@.keys =~= keys.push((value@, plain)));
                levels.push(level);
                assert(level_models(levels@) =~= level_step(before, event)->0);
                false
            } else {
                levels.push(Level { mapping: level.mapping, key_next: !level.key_next, keys: level.keys });
                assert(level_models(levels@) =~= value_ended(before));
                false
            }
        },
    }
}

/// Whether a mapping names a scalar key twice.
pub fn find_repeated_key(events: &Vec<YamlEvent>) -> (r: bool)
    ensures
        r == repeats_key(event_models(events@)),
{
    let ghost all = event_models(events@);
    let mut levels: Vec<Level> = Vec::new();
    let mut i: usize = 0;
    assert(level_models(levels@) =~= Seq::<LevelModel>::empty());
    while i < events.len()
        invariant
            all == event_models(events@),
            i <= events@.len(),
            levels_after(all, i as nat) == Some(level_models(levels@)),
        decreases events@.len() - i,
    {
        let event = &events[i];
        let ghost before = level_models(levels@);
        assert(all[i as int] == event@);
        match event {
            YamlEvent::Scalar { value, plain, .. } => {
                if scalar_repeats(&mut levels, value.as_str(), *plain, Ghost(event@)) {
                    proof {
                        lemma_repeated_by_then(all, (i + 1) as nat, all.len());
                    }
                    return true;
                }
            },
            YamlEvent::Alias => end_value(&mut levels),
            YamlEvent::Open { mapping, .. } => {
                levels.push(Level { mapping: *mapping, key_next: true, keys: Vec::new() });
                assert(key_models(levels@.last().keys@) =~= Seq::<KeyModel>::empty());
                assert(level_models(levels@) =~= level_step(before, event@)->0);
            },
            YamlEvent::Close => {
                if levels.len() > 0 {
                    let _ = levels.pop();
                    assert(level_models(levels@) =~= before.drop_last());
                    end_value(&mut levels);
                }
            },
            YamlEvent::StreamEnd => {},
            YamlEvent::Other => {},
        }
        i = i + 1;
    }
    false
}

/// Whether a text is YAML within bounds.
pub fn validate_events(text: &str) -> (r: Result<(), YamlError>)
    ensures
        r == events_verdict(yaml_events(text@)),
{
    let events = parse_events(text);
    check_events(&events)
}

/// The text of a configuration file that is within bounds.
pub fn validate_file(bytes: &[u8]) -> (r: Result<String, YamlError>)
    ensures
        if bytes@.len() > MAX_YAML_FILE {
            r matches Err(error) && error == YamlError::TooLarge
        } else if !valid_utf8(bytes@) {
            r matches Err(error) && error == YamlError::Parse
        } else {
            match events_verdict(yaml_events(decode_utf8(bytes@))) {
                Ok(()) => r matches Ok(text) && text@ == decode_utf8(bytes@),
                Err(error) => r matches Err(e) && e == error,
            }
        },
{
    if bytes.len() > MAX_YAML_FILE {
        return Err(YamlError::TooLarge);
    }
    match text_from_utf8(vstd::slice::slice_to_vec(bytes)) {
        Some(text) => match validate_events(text.as_str()) {
            Ok(()) => Ok(text),
            Err(error) => Err(error),
        },
        None => Err(YamlError::Parse),
    }
}

/// A value of a configuration file.
pub enum YamlNode {
    /// A value other than text that holds no further values.
    Plain,
    Text(String),
    Tagged,
    Sequence(Vec<YamlNode>),
    /// Keys and values in turn.
    Mapping(Vec<YamlNode>),
}

/// What a value of a configuration file says.
#[verifier::ext_equal]
pub enum NodeModel {
    Plain,
    Text(Seq<char>),
    Tagged,
    Sequence(Seq<NodeModel>),
    Mapping(Seq<NodeModel>),
}

/// What a value of a configuration file says.
pub open spec fn node_model(node: YamlNode) -> NodeModel
    decreases node,
{
    match node {
        YamlNode::Plain => NodeModel::Plain,
        YamlNode::Text(text) => NodeModel::Text(text@),
        YamlNode::Tagged => NodeModel::Tagged,
        YamlNode::Sequence(nodes) => NodeModel::Sequence(
            Seq::new(
                nodes@.len(),
                |i: int|
                    if 0 <= i < nodes@.len() {
                        node_model(nodes@[i])
                    } else {
                        NodeModel::Plain
                    },
            ),
        ),
        YamlNode::Mapping(nodes) => NodeModel::Mapping(
            Seq::new(
                nodes@.len(),
                |i: int|
                    if 0 <= i < nodes@.len() {
                        node_model(nodes@[i])
                    } else {
                        NodeModel::Plain
                    },
            ),
        ),
    }
}

/// What the values of a list say.
pub open spec fn node_models(nodes: Seq<YamlNode>) -> Seq<NodeModel> {
    Seq::new(nodes.len(), |i: int| node_model(nodes[i]))
}

/// What a nested value says is what the values in it say.
proof fn lemma_nested_model(node: YamlNode)
    ensures
        node matches YamlNode::Sequence(nodes) ==> node_model(node) == NodeModel::Sequence(
            node_models(nodes@),
        ),
        node matches YamlNode::Mapping(nodes) ==> node_model(node) == NodeModel::Mapping(
            node_models(nodes@),
        ),
{
    match node {
        YamlNode::Sequence(nodes) => {
            assert(node_model(node)->Sequence_0 =~= node_models(nodes@));
        },
        YamlNode::Mapping(nodes) => {
            assert(node_model(node)->Mapping_0 =~= node_models(nodes@));
        },
        _ => {},
    }
}

/// How many values a value holds, itself among them.
pub open spec fn node_count(node: NodeModel) -> nat
    decreases node, 0nat,
{
    match node {
        NodeModel::Sequence(nodes) => 1 + list_count(nodes, nodes.len()),
        NodeModel::Mapping(nodes) => 1 + list_count(nodes, nodes.len()),
        _ => 1,
    }
}

/// How many values the first `n` values of a list hold.
pub open spec fn list_count(nodes: Seq<NodeModel>, n: nat) -> nat
    decreases nodes, n,
{
    if n == 0 || n > nodes.len() {
        0
    } else {
        list_count(nodes, (n - 1) as nat) + node_count(nodes[n - 1])
    }
}

/// Whether a value at a depth has no tag, no text that is too long and no value
/// that is too deep.
pub open spec fn node_fits(node: NodeModel, depth: nat) -> bool
    decreases node, 0nat,
{
    depth <= MAX_YAML_DEPTH && match node {
        NodeModel::Plain => true,
        NodeModel::Text(text) => encode_utf8(text).len() <= MAX_YAML_SCALAR,
        NodeModel::Tagged => false,
        NodeModel::Sequence(nodes) => list_fits(nodes, nodes.len(), depth + 1),
        NodeModel::Mapping(nodes) => list_fits(nodes, nodes.len(), depth + 1),
    }
}

/// Whether the first `n` values of a list fit.
pub open spec fn list_fits(nodes: Seq<NodeModel>, n: nat, depth: nat) -> bool
    decreases nodes, n,
{
    if n == 0 || n > nodes.len() {
        true
    } else {
        list_fits(nodes, (n - 1) as nat, depth) && node_fits(nodes[n - 1], depth)
    }
}

/// Whether a value at a depth is within bounds. `nodes` counts the values that
/// were looked at.
pub fn validate_structure(node: &YamlNode, depth: usize, nodes: &mut usize) -> (r: Result<(), YamlError>)
    ensures
        *old(nodes) <= MAX_YAML_NODES ==> *final(nodes) <= MAX_YAML_NODES + 1,
        if *old(nodes) + node_count(node_model(*node)) <= MAX_YAML_NODES && node_fits(
            node_model(*node),
            depth as nat,
        ) {
            r is Ok && *final(nodes) == *old(nodes) + node_count(node_model(*node))
        } else {
            r == Err::<(), YamlError>(YamlError::Bounds)
        },
    decreases *node,
{
    if *nodes == usize::MAX {
        return Err(YamlError::Bounds);
    }
    *nodes = *nodes + 1;
    if *nodes > MAX_YAML_NODES || depth > MAX_YAML_DEPTH {
        return Err(YamlError::Bounds);
    }
    match node {
        YamlNode::Plain => Ok(()),
        YamlNode::Text(text) => if text.as_str().as_bytes().len() > MAX_YAML_SCALAR {
            Err(YamlError::Bounds)
        } else {
            Ok(())
        },
        YamlNode::Tagged => Err(YamlError::Bounds),
        YamlNode::Sequence(list) => {
            proof {
                lemma_nested_model(*node);
            }
            validate_list(list, depth + 1, nodes)
        },
        YamlNode::Mapping(list) => {
            proof {
                lemma_nested_model(*node);
            }
            validate_list(list, depth + 1, nodes)
        },
    }
}

/// Whether the values of a list are within bounds.
fn validate_list(list: &Vec<YamlNode>, depth: usize, nodes: &mut usize) -> (r: Result<(), YamlError>)
    requires
        *old(nodes) <= MAX_YAML_NODES,
    ensures
        *final(nodes) <= MAX_YAML_NODES + 1,
        if *old(nodes) + list_count(node_models(list@), list@.len()) <= MAX_YAML_NODES && list_fits(
            node_models(list@),
            list@.len(),
            depth as nat,
        ) {
            r is Ok && *final(nodes) == *old(nodes) + list_count(node_models(list@), list@.len())
        } else {
            r == Err::<(), YamlError>(YamlError::Bounds)
        },
    decreases *list,
{
    let ghost models = node_models(list@);
    let mut i: usize = 0;
    while i < list.len()
        invariant
            models == node_models(list@),
            i <= list@.len(),
            *old(nodes) <= MAX_YAML_NODES,
            *nodes <= MAX_YAML_NODES,
            *nodes == *old(nodes) + list_count(models, i as nat),
            list_fits(models, i as nat, depth as nat),
        decreases list@.len() - i,
    {
        assert(models[i as int] == node_model(list@[i as int]));
        match validate_structure(&list[i], depth, nodes) {
            Ok(()) => {},
            Err(error) => {
                proof {
                    lemma_list_grows(models, (i + 1) as nat, list@.len(), depth as nat);
                }
                return Err(error);
            },
        }
        i = i + 1;
    }
    Ok(())
}

proof fn lemma_list_grows(list: Seq<NodeModel>, i: nat, n: nat, depth: nat)
    requires
        i <= n <= list.len(),
    ensures
        list_count(list, i) <= list_count(list, n),
        list_fits(list, n, depth) ==> list_fits(list, i, depth),
    decreases n,
{
    if i < n {
        lemma_list_grows(list, i, (n - 1) as nat, depth);
    }
}

/// A value as `serde_yaml` reads it.
#[verifier::external_type_specification]
#[verifier::external_body]
pub struct ExYamlValue(serde_yaml::Value);

/// What a value of `serde_yaml` holds: the values in it, of which only texts are
/// looked at.
pub uninterp spec fn value_node(value: serde_yaml::Value) -> NodeModel;

/// What the documents of a text hold, if `serde_yaml` can read each of them as a
/// value. It reads no mapping that names a key twice.
pub uninterp spec fn yaml_documents(text: Seq<char>) -> Option<Seq<NodeModel>>;

/// Walks the documents of a `serde_yaml::Deserializer` and calls
/// `Value::deserialize` on each. What comes out depends on the text alone.
#[verifier::external_body]
fn read_documents(text: &str) -> (r: Option<Vec<serde_yaml::Value>>)
    ensures
        match r {
            Some(values) => yaml_documents(text@) == Some(
                Seq::new(values@.len(), |i: int| value_node(values@[i])),
            ),
            None => yaml_documents(text@) is None,
        },
{
    serde_yaml::Deserializer::from_str(text).map(
        |document| <serde_yaml::Value as serde::Deserialize>::deserialize(document).ok(),
    ).collect()
}

/// One level of a value of `serde_yaml`.
enum ValueParts<'a> {
    Plain,
    Text(String),
    Tagged,
    Sequence(Vec<&'a serde_yaml::Value>),
    /// Keys and values in turn.
    Mapping(Vec<&'a serde_yaml::Value>),
}

/// What the values of a list hold.
spec fn value_nodes(values: Seq<&serde_yaml::Value>) -> Seq<NodeModel> {
    Seq::new(values.len(), |i: int| value_node(*values[i]))
}

/// Tells the variants of a `serde_yaml::Value` apart and hands out the values
/// in it, in the order of `Sequence::iter` and of `Mapping::iter`.
#[verifier::external_body]
fn parts_of<'a>(value: &'a serde_yaml::Value) -> (r: ValueParts<'a>)
    ensures
        value_node(*value) == match r {
            ValueParts::Plain => NodeModel::Plain,
            ValueParts::Text(text) => NodeModel::Text(text@),
            ValueParts::Tagged => NodeModel::Tagged,
            ValueParts::Sequence(items) => NodeModel::Sequence(value_nodes(items@)),
            ValueParts::Mapping(items) => NodeModel::Mapping(value_nodes(items@)),
        },
{
    match value {
        serde_yaml::Value::Null | serde_yaml::Value::Bool(_) | serde_yaml::Value::Number(_) => ValueParts::Plain,
        serde_yaml::Value::String(text) => ValueParts::Text(text.clone()),
        serde_yaml::Value::Tagged(_) => ValueParts::Tagged,
        serde_yaml::Value::Sequence(items) => ValueParts::Sequence(items.iter().collect()),
        serde_yaml::Value::Mapping(entries) => ValueParts::Mapping(
            entries.iter().flat_map(|(key, value)| [key, value]).collect(),
        ),
    }
}

/// Takes a value of `serde_yaml` over, one value for one.
fn node_of(value: &serde_yaml::Value) -> (r: YamlNode)
    ensures
        node_model(r) == value_node(*value),
    decreases value_node(*value),
{
    let ghost whole = value_node(*value);
    let node = match parts_of(value) {
        ValueParts::Plain => YamlNode::Plain,
        ValueParts::Text(text) => YamlNode::Text(text),
        ValueParts::Tagged => YamlNode::Tagged,
        ValueParts::Sequence(items) => {
            assert(decreases_to!(whole => whole->Sequence_0));
            YamlNode::Sequence(nodes_of(&items))
        },
        ValueParts::Mapping(items) => {
            assert(decreases_to!(whole => whole->Mapping_0));
            YamlNode::Mapping(nodes_of(&items))
        },
    };
    proof {
        lemma_nested_model(node);
    }
    node
}

/// Takes the values of a list over.
fn nodes_of(items: &Vec<&serde_yaml::Value>) -> (r: Vec<YamlNode>)
    ensures
        node_models(r@) == value_nodes(items@),
    decreases value_nodes(items@),
{
    let ghost held = value_nodes(items@);
    let mut nodes: Vec<YamlNode> = Vec::new();
    let mut i: usize = 0;
    while i < items.len()
        invariant
            held == value_nodes(items@),
            i <= items@.len(),
            nodes@.len() == i,
            forall|j: int| 0 <= j < i ==> node_model(#[trigger] nodes@[j]) == held[j],
        decreases items@.len() - i,
    {
        assert(decreases_to!(held => held[i as int]));
        nodes.push(node_of(items[i]));
        i = i + 1;
    }
    assert(node_models(nodes@) =~= held);
    nodes
}

/// The documents of a text, if each of them can be read.
pub fn parse_documents(text: &str) -> (r: Option<Vec<YamlNode>>)
    ensures
        match r {
            Some(documents) => yaml_documents(text@) == Some(node_models(documents@)),
            None => yaml_documents(text@) is None,
        },
{
    let values = match read_documents(text) {
        Some(values) => values,
        None => return None,
    };
    let mut documents: Vec<YamlNode> = Vec::new();
    let mut i: usize = 0;
    while i < values.len()
        invariant
            i <= values@.len(),
            documents@.len() == i,
            forall|j: int| 0 <= j < i ==> node_model(#[trigger] documents@[j]) == value_node(values@[j]),
        decreases values@.len() - i,
    {
        documents.push(node_of(&values[i]));
        i = i + 1;
    }
    assert(node_models(documents@) =~= Seq::new(values@.len(), |j: int| value_node(values@[j])));
    Some(documents)
}

/// Whether a value is within bounds.
pub open spec fn within_bounds(node: NodeModel) -> bool {
    node_count(node) <= MAX_YAML_NODES && node_fits(node, 0)
}

/// What the documents of a text say of it: there is one and it is within bounds,
/// it is not, or the text is no single document.
pub open spec fn documents_verdict(documents: Option<Seq<NodeModel>>) -> Result<(), YamlError> {
    match documents {
        None => Err(YamlError::Parse),
        Some(documents) => if documents.len() != 1 {
            Err(YamlError::Parse)
        } else if !within_bounds(documents[0]) {
            Err(YamlError::Bounds)
        } else {
            Ok(())
        },
    }
}

/// What documents say that may be missing.
pub open spec fn document_models(documents: Option<Vec<YamlNode>>) -> Option<Seq<NodeModel>> {
    match documents {
        Some(documents) => Some(node_models(documents@)),
        None => None,
    }
}

/// Whether a file with the given documents is a single one within bounds.
pub fn check_documents(documents: &Option<Vec<YamlNode>>) -> (r: Result<(), YamlError>)
    ensures
        r == documents_verdict(document_models(*documents)),
{
    match documents {
        None => Err(YamlError::Parse),
        Some(documents) => {
            if documents.len() != 1 {
                return Err(YamlError::Parse);
            }
            assert(node_models(documents@)[0] == node_model(documents@[0]));
            let mut nodes: usize = 0;
            match validate_structure(&documents[0], 0, &mut nodes) {
                Ok(()) => Ok(()),
                Err(error) => Err(error),
            }
        },
    }
}

/// Whether a text is a single YAML document within bounds whose mappings name no
/// key twice.
pub open spec fn text_verdict(text: Seq<char>) -> Result<(), YamlError> {
    match events_verdict(yaml_events(text)) {
        Ok(()) => if repeats_key(yaml_events(text)) {
            Err(YamlError::Parse)
        } else {
            documents_verdict(yaml_documents(text))
        },
        Err(error) => Err(error),
    }
}

/// The text of a configuration file that is a single document within bounds.
pub fn validate_document(bytes: &[u8]) -> (r: Result<String, YamlError>)
    ensures
        if bytes@.len() > MAX_YAML_FILE {
            r matches Err(error) && error == YamlError::TooLarge
        } else if !valid_utf8(bytes@) {
            r matches Err(error) && error == YamlError::Parse
        } else {
            match text_verdict(decode_utf8(bytes@)) {
                Ok(()) => r matches Ok(text) && text@ == decode_utf8(bytes@),
                Err(error) => r matches Err(e) && e == error,
            }
        },
{
    match validate_file(bytes) {
        Err(error) => Err(error),
        Ok(text) => {
            let events = parse_events(text.as_str());
            if find_repeated_key(&events) {
                return Err(YamlError::Parse);
            }
            let documents = parse_documents(text.as_str());
            match check_documents(&documents) {
                Ok(()) => Ok(text),
                Err(error) => Err(error),
            }
        },
    }
}

/// How many values begin among the first `n` events.
pub open spec fn values_begun(events: Seq<EventModel>, n: nat) -> nat
    decreases n,
{
    if n == 0 {
        0
    } else {
        values_begun(events, (n - 1) as nat) + if events[n - 1] is Scalar || events[n - 1] is Open {
            1nat
        } else {
            0nat
        }
    }
}

/// How many sequences and mappings more begin than end among the first `n` events.
pub open spec fn open_ends(events: Seq<EventModel>, n: nat) -> int
    decreases n,
{
    if n == 0 {
        0
    } else {
        open_ends(events, (n - 1) as nat) + if events[n - 1] is Open {
            1int
        } else if events[n - 1] is Close {
            -1int
        } else {
            0int
        }
    }
}

/// Whether the event at place `i` keeps a text within bounds: it refers to nothing
/// and is not referred to, has no tag, holds no more than four kibibytes, closes
/// only what is open, nests no deeper than thirty-two, and is among the first four
/// thousand and ninety-six values.
pub open spec fn stays_within(events: Seq<EventModel>, i: int) -> bool {
    &&& !(events[i] is Alias)
    &&& events[i] matches EventModel::Scalar { value, anchor, tagged, .. } ==> anchor == 0 && !tagged
        && encode_utf8(value).len() <= 4096
    &&& events[i] matches EventModel::Open { anchor, tagged, .. } ==> anchor == 0 && !tagged
    &&& 0 <= open_ends(events, (i + 1) as nat) <= 32
    &&& values_begun(events, (i + 1) as nat) <= 4096
}

/// While every event stays within bounds and the end is not reached, the look goes
/// on with what is open and what has begun; the first event that does not ends it.
proof fn lemma_progress_counts(events: Seq<EventModel>, n: nat)
    requires
        n <= events.len(),
        forall|i: int| 0 <= i < n ==> !((#[trigger] events[i]) is StreamEnd),
    ensures
        (forall|i: int| 0 <= i < n ==> #[trigger] stays_within(events, i)) ==> progress_after(events, n) == (
        Progress::Going { depth: open_ends(events, n), nodes: values_begun(events, n) as int }),
        !(forall|i: int| 0 <= i < n ==> #[trigger] stays_within(events, i)) ==> progress_after(events, n)
            is Failed,
    decreases n,
{
    if n > 0 {
        let k = (n - 1) as nat;
        lemma_progress_counts(events, k);
        assert(!(events[k as int] is StreamEnd));
        if forall|i: int| 0 <= i < k ==> #[trigger] stays_within(events, i) {
            if k > 0 {
                assert(stays_within(events, k - 1));
            }
            if stays_within(events, k as int) {
                assert(forall|i: int| 0 <= i < n ==> #[trigger] stays_within(events, i));
            }
        } else {
            let i = choose|i: int| 0 <= i < k && !(#[trigger] stays_within(events, i));
            assert(!stays_within(events, i) && i < n);
        }
    }
}

/// A text is read up to the first end of its stream: if every event before that
/// stays within bounds the text is accepted, and if one does not it is refused.
pub proof fn law_texts_within_bounds_are_accepted(events: Seq<EventModel>, end: int)
    requires
        0 <= end < events.len(),
        events[end] is StreamEnd,
        forall|i: int| 0 <= i < end ==> !((#[trigger] events[i]) is StreamEnd),
    ensures
        (forall|i: int| 0 <= i < end ==> #[trigger] stays_within(events, i)) ==> events_verdict(events) == Ok::<
            (),
            YamlError,
        >(()),
        !(forall|i: int| 0 <= i < end ==> #[trigger] stays_within(events, i)) ==> events_verdict(events)
            == Err::<(), YamlError>(YamlError::Bounds),
{
    lemma_progress_counts(events, end as nat);
    lemma_progress_ends(events, (end + 1) as nat, events.len());
}

/// A text whose stream does not end is no YAML, unless it is out of bounds before.
pub proof fn law_texts_without_an_end_are_refused(events: Seq<EventModel>)
    requires
        forall|i: int| 0 <= i < events.len() ==> !((#[trigger] events[i]) is StreamEnd),
    ensures
        (forall|i: int| 0 <= i < events.len() ==> #[trigger] stays_within(events, i)) ==> events_verdict(events)
            == Err::<(), YamlError>(YamlError::Parse),
        !(forall|i: int| 0 <= i < events.len() ==> #[trigger] stays_within(events, i)) ==> events_verdict(
            events,
        ) == Err::<(), YamlError>(YamlError::Bounds),
{
    lemma_progress_counts(events, events.len());
}

proof fn lemma_list_fits(nodes: Seq<NodeModel>, n: nat, depth: nat)
    requires
        n <= nodes.len(),
    ensures
        list_fits(nodes, n, depth) <==> forall|i: int| 0 <= i < n ==> node_fits(#[trigger] nodes[i], depth),
    decreases n,
{
    if n > 0 {
        lemma_list_fits(nodes, (n - 1) as nat, depth);
    }
}

/// A value fits at a depth of thirty-two at most, if it has no tag, if its text is
/// no longer than four kibibytes, and if what it holds fits one deeper.
pub proof fn law_values_fit_with_what_they_hold(node: NodeModel, depth: nat)
    ensures
        depth > 32 ==> !node_fits(node, depth),
        node is Tagged ==> !node_fits(node, depth),
        depth <= 32 && node is Plain ==> node_fits(node, depth),
        depth <= 32 ==> (node matches NodeModel::Text(text) ==> (node_fits(node, depth) <==> encode_utf8(
            text,
        ).len() <= 4096)),
        depth <= 32 ==> (node matches NodeModel::Sequence(nodes) ==> (node_fits(node, depth) <==> forall|
            i: int,
        |
            0 <= i < nodes.len() ==> node_fits(#[trigger] nodes[i], depth + 1))),
        depth <= 32 ==> (node matches NodeModel::Mapping(nodes) ==> (node_fits(node, depth) <==> forall|
            i: int,
        |
            0 <= i < nodes.len() ==> node_fits(#[trigger] nodes[i], depth + 1))),
{
    match node {
        NodeModel::Sequence(nodes) => lemma_list_fits(nodes, nodes.len(), depth + 1),
        NodeModel::Mapping(nodes) => lemma_list_fits(nodes, nodes.len(), depth + 1),
        _ => {},
    }
}

proof fn lemma_list_count_prefix(nodes: Seq<NodeModel>, node: NodeModel, n: nat)
    requires
        n <= nodes.len(),
    ensures
        list_count(nodes.push(node), n) == list_count(nodes, n),
    decreases n,
{
    if n > 0 {
        lemma_list_count_prefix(nodes, node, (n - 1) as nat);
        assert(nodes.push(node)[n - 1] == nodes[n - 1]);
    }
}

/// A value counts as one and with it what it holds.
pub proof fn law_values_count_with_what_they_hold(nodes: Seq<NodeModel>, node: NodeModel)
    ensures
        node is Plain || node is Text || node is Tagged ==> node_count(node) == 1,
        node_count(NodeModel::Sequence(Seq::empty())) == 1,
        node_count(NodeModel::Mapping(Seq::empty())) == 1,
        node_count(NodeModel::Sequence(nodes.push(node))) == node_count(NodeModel::Sequence(nodes))
            + node_count(node),
        node_count(NodeModel::Mapping(nodes)) == node_count(NodeModel::Sequence(nodes)),
{
    let all = nodes.push(node);
    lemma_list_count_prefix(nodes, node, nodes.len());
    assert(all[all.len() - 1] == node);
    assert(list_count(all, all.len()) == list_count(all, (all.len() - 1) as nat) + node_count(node));
}

/// A text needs to be one document, and that within bounds; what is wrong is told
/// apart.
pub proof fn law_one_document_is_accepted(documents: Option<Seq<NodeModel>>)
    ensures
        documents is None || documents->0.len() != 1 ==> documents_verdict(documents) == Err::<(), YamlError>(
            YamlError::Parse,
        ),
        documents is Some && documents->0.len() == 1 ==> ({
            let node = documents->0[0];
            let fits = node_count(node) <= 4096 && node_fits(node, 0);
            documents_verdict(documents) == if fits {
                Ok::<(), YamlError>(())
            } else {
                Err(YamlError::Bounds)
            }
        }),
{
}

/// A file of half a mebibyte at most is read as the text it holds; a longer one,
/// one that is no text and one that is out of bounds are told apart.
pub proof fn law_files_are_read_as_their_text(
    bytes: &[u8],
    file: Result<String, YamlError>,
    document: Result<String, YamlError>,
)
    requires
        call_ensures(validate_file, (bytes,), file),
        call_ensures(validate_document, (bytes,), document),
    ensures
        ({
            let long = bytes@.len() > 512 * 1024;
            let text = decode_utf8(bytes@);
            &&& long ==> file is Err && file->Err_0 == YamlError::TooLarge && document is Err
                && document->Err_0 == YamlError::TooLarge
            &&& !long && !valid_utf8(bytes@) ==> file is Err && file->Err_0 == YamlError::Parse && document
                is Err && document->Err_0 == YamlError::Parse
            &&& file is Ok ==> file->Ok_0@ == text && events_verdict(yaml_events(text)) is Ok
            &&& document is Ok ==> document->Ok_0@ == text && file is Ok && !repeats_key(yaml_events(text))
                && documents_verdict(yaml_documents(text)) is Ok
            &&& file is Ok && document is Err ==> repeats_key(yaml_events(text)) || documents_verdict(
                yaml_documents(text),
            ) is Err
            &&& file is Err ==> document is Err && document->Err_0 == file->Err_0
        }),
{
}

/// A mapping of scalars whose keys differ, in their text or in whether they stand
/// in quotes, is not taken for one that repeats a key: `events[start]` opens it.
pub proof fn law_distinct_keys_are_accepted(events: Seq<EventModel>, start: int, n: nat)
    requires
        0 <= start,
        start + 2 * n < events.len(),
        levels_after(events, start as nat) is Some,
        events[start] matches EventModel::Open { mapping, .. } && mapping,
        forall|m: int| start < m <= start + 2 * n ==> (#[trigger] events[m]) is Scalar,
        forall|i: int, j: int|
            0 <= i < j < n ==> key_of(#[trigger] events[start + 1 + 2 * i]) != key_of(
                #[trigger] events[start + 1 + 2 * j],
            ),
    ensures
        levels_after(events, (start + 1 + 2 * n) as nat) matches Some(levels) && levels.len() > 0
            && levels.last().mapping && levels.last().key_next && levels.last().keys == Seq::new(
            n,
            |m: int| key_of(events[start + 1 + 2 * m]),
        ),
    decreases n,
{
    if n == 0 {
        let levels = levels_after(events, (start + 1) as nat)->0;
        assert(levels.last().keys =~= Seq::new(0, |m: int| key_of(events[start + 1 + 2 * m])));
    } else {
        let k = (n - 1) as nat;
        law_distinct_keys_are_accepted(events, start, k);
        let at = start + 1 + 2 * k;
        let before = levels_after(events, at as nat)->0;
        assert(events[at] is Scalar && events[at + 1] is Scalar);
        let key = key_of(events[start + 1 + 2 * k]);
        if before.last().keys.contains(key) {
            let i = before.last().keys.index_of(key);
            assert(before.last().keys[i] == key_of(events[start + 1 + 2 * i]));
            assert(key_of(events[start + 1 + 2 * i]) != key_of(events[start + 1 + 2 * k]));
        }
        let named = levels_after(events, (at + 1) as nat)->0;
        let valued = levels_after(events, (at + 2) as nat)->0;
        assert(named.last().keys == before.last().keys.push(key));
        assert(levels_after(events, (at + 2) as nat) == Some(value_ended(named)));
        assert(valued.last().keys =~= Seq::new(n, |m: int| key_of(events[start + 1 + 2 * m])));
        assert(at + 2 == start + 1 + 2 * n);
    }
}

/// A sequence or a mapping that ends counts as one value of what holds it; an end
/// where nothing is open changes nothing.
pub proof fn law_what_is_closed_counts_as_one_value(
    levels: Seq<LevelModel>,
    mapping: bool,
    anchor: usize,
    tagged: bool,
)
    ensures
        level_step(Seq::<LevelModel>::empty(), EventModel::Close) == Some(Seq::<LevelModel>::empty()),
        ({
            let opened = level_step(levels, EventModel::Open { mapping, anchor, tagged });
            let closed = level_step(opened->0, EventModel::Close);
            &&& opened is Some && opened->0.len() == levels.len() + 1
            &&& opened->0.last().mapping == mapping && opened->0.last().keys.len() == 0
            &&& closed is Some && closed->0.len() == levels.len()
            &&& levels.len() > 0 ==> closed->0.last().key_next == !levels.last().key_next
                && closed->0.last().keys == levels.last().keys
        }),
{
    let opened = level_step(levels, EventModel::Open { mapping, anchor, tagged })->0;
    assert(opened.drop_last() =~= levels);
}

} // verus!
