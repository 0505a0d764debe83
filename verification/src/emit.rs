//! The source emitter: from the records of the scanned files to the text of
//! the two generated sources.

use crate::model::{MessageMetadataView, ProtoMessageInfo, ProtoMessageInfoView};
use vstd::prelude::*;
use vstd::string::*;

verus! {

/// The runtime registry that opens the factory source: two tables for each
/// thread, from a message's full name to its identifier and from an
/// identifier to a descriptor, filled on the first lookup.
pub const REGISTRY_TEMPLATE: &'static str = "use std::cell::RefCell;
use std::collections::HashMap;
use protobuf::reflect::MessageDescriptor;
use protobuf::Message;

pub type MessageId = u16;

thread_local! {
    pub static NAME_ID_MAP : RefCell<HashMap<String, MessageId>> = RefCell::new(HashMap::new());
    pub static ID_DESC_MAP : RefCell<HashMap<MessageId, &'static MessageDescriptor>> = RefCell::new(HashMap::new());
}

pub fn register<M: Message>(id: MessageId) {
    NAME_ID_MAP.with(|x| {
        let mut m = x.borrow_mut();
        let name = M::descriptor_static().full_name().to_string();
        if !m.contains_key(&name) {
            m.insert(name, id);
        }
    });
    ID_DESC_MAP.with(|x| {
        let mut m = x.borrow_mut();
        let name = M::descriptor_static().full_name().to_string();
        if !m.contains_key(&id) {
            m.insert(id, M::descriptor_static());
        }
    })
}

pub fn get_id(msg_desc: &MessageDescriptor) -> Option<MessageId> {
    NAME_ID_MAP.with(|x| {
        {
            let m = x.borrow_mut();
            if m.len() == 0 {
                drop(m);
                init_descriptors()
            }
        }
        {
            let m = x.borrow_mut();
            match m.get(msg_desc.full_name()) {
                Some(message_id) => Some(message_id.clone()),
                None => None,
            }
        }
    })
}

pub fn get_descriptor(id: MessageId) -> Option<&'static MessageDescriptor> {
    ID_DESC_MAP.with(move |x| {
        {
            let m = x.borrow_mut();
            if m.len() == 0 {
                drop(m);
                init_descriptors()
            }
        }
        {
            let m = x.borrow_mut();
            match m.get(&id) {
                Some(r) => Some(*r),
                None => None,
            }
        }
    })
}";

/// The pieces of `path` between its slashes; a path without a slash is one
/// piece.
pub open spec fn path_segments(path: Seq<char>) -> Seq<Seq<char>>
    decreases path.len(),
{
    if path.len() == 0 {
        seq![Seq::empty()]
    } else {
        let before = path_segments(path.drop_last());
        if path.last() == '/' {
            before.push(Seq::empty())
        } else {
            before.drop_last().push(before.last().push(path.last()))
        }
    }
}

/// The segments, each behind a `::`.
pub open spec fn scoped(segments: Seq<Seq<char>>) -> Seq<char>
    decreases segments.len(),
{
    if segments.len() == 0 {
        Seq::empty()
    } else {
        scoped(segments.drop_last()) + "::"@ + segments.last()
    }
}

/// The module that holds the generated sources, seen from the crate root:
/// `crate`, then every segment of the output directory but the first.
pub open spec fn crate_path(path: Seq<char>) -> Seq<char> {
    "crate"@ + scoped(path_segments(path).skip(1))
}

/// The import of one file's module.
pub open spec fn use_line(module: Seq<char>, file_name: Seq<char>) -> Seq<char> {
    "use "@ + module + "::"@ + file_name + ";\n"@
}

/// The imports of the files' modules, in the order of the files.
pub open spec fn use_lines(module: Seq<char>, files: Seq<ProtoMessageInfoView>) -> Seq<char>
    decreases files.len(),
{
    if files.len() == 0 {
        Seq::empty()
    } else {
        use_lines(module, files.drop_last()) + use_line(module, files.last().file_name)
    }
}

/// The registration of one message.
pub open spec fn register_line(file_name: Seq<char>, message: MessageMetadataView) -> Seq<char> {
    "\n    register::<"@ + file_name + "::"@ + message.name + ">("@ + message.id + ");"@
}

/// The registrations of the messages of one file, in their order.
pub open spec fn register_lines_of(file_name: Seq<char>, messages: Seq<MessageMetadataView>) -> Seq<
    char,
>
    decreases messages.len(),
{
    if messages.len() == 0 {
        Seq::empty()
    } else {
        register_lines_of(file_name, messages.drop_last()) + register_line(
            file_name,
            messages.last(),
        )
    }
}

/// The registrations of all messages: file by file, and in each file message
/// by message.
pub open spec fn register_lines(files: Seq<ProtoMessageInfoView>) -> Seq<char>
    decreases files.len(),
{
    if files.len() == 0 {
        Seq::empty()
    } else {
        register_lines(files.drop_last()) + register_lines_of(
            files.last().file_name,
            files.last().messages,
        )
    }
}

/// The text of the factory source: the registry, the imports, and
/// `init_descriptors` with the registrations.
pub open spec fn factory_text(path: Seq<char>, files: Seq<ProtoMessageInfoView>) -> Seq<char> {
    REGISTRY_TEMPLATE@ + "\n\n"@ + use_lines(crate_path(path), files)
        + "\nfn init_descriptors() {"@ + register_lines(files) + "\n}\n"@
}

/// The declaration of one file's module.
pub open spec fn mod_line(file_name: Seq<char>) -> Seq<char> {
    "pub mod "@ + file_name + ";\n"@
}

/// The declarations of the files' modules, in the order of the files.
pub open spec fn mod_lines(files: Seq<ProtoMessageInfoView>) -> Seq<char>
    decreases files.len(),
{
    if files.len() == 0 {
        Seq::empty()
    } else {
        mod_lines(files.drop_last()) + mod_line(files.last().file_name)
    }
}

/// The re-export of one message.
pub open spec fn reexport_line(file_name: Seq<char>, message: MessageMetadataView) -> Seq<char> {
    "pub use "@ + file_name + "::"@ + message.name + ";\n"@
}

/// The re-exports of the messages of one file, in their order.
pub open spec fn reexport_lines_of(file_name: Seq<char>, messages: Seq<MessageMetadataView>) -> Seq<
    char,
>
    decreases messages.len(),
{
    if messages.len() == 0 {
        Seq::empty()
    } else {
        reexport_lines_of(file_name, messages.drop_last()) + reexport_line(
            file_name,
            messages.last(),
        )
    }
}

/// The re-exports of all messages: file by file, and in each file message by
/// message.
pub open spec fn reexport_lines(files: Seq<ProtoMessageInfoView>) -> Seq<char>
    decreases files.len(),
{
    if files.len() == 0 {
        Seq::empty()
    } else {
        reexport_lines(files.drop_last()) + reexport_lines_of(
            files.last().file_name,
            files.last().messages,
        )
    }
}

/// The text of the module aggregator: the modules, the two lookups of the
/// registry, and every message.
pub open spec fn aggregator_text(files: Seq<ProtoMessageInfoView>) -> Seq<char> {
    "pub mod factory;\n"@ + mod_lines(files)
        + "pub use factory::get_id;\npub use factory::get_descriptor;\n"@ + reexport_lines(files)
}

/// Computes the module that holds the generated sources, seen from the crate
/// root.
pub fn crate_module_path(path: &str) -> (module: String)
    ensures
        module@ == crate_path(path@),
{
    let n: usize = path.unicode_len();
    let mut module = String::from_str("crate");
    let mut seen = false;
    let mut start: usize = 0;
    let mut i: usize = 0;
    for c in it: path.chars()
        invariant
            n == path@.len(),
            it.seq() == path@,
            i == it.index(),
            start <= i <= n,
            path_segments(path@.take(i as int)).len() >= 1,
            seen == (path_segments(path@.take(i as int)).len() > 1),
            path_segments(path@.take(i as int)).last() == path@.subrange(start as int, i as int),
            module@ == "crate"@ + (if seen {
                scoped(path_segments(path@.take(i as int)).drop_last().skip(1))
            } else {
                Seq::empty()
            }),
    {
        let ghost before = path_segments(path@.take(i as int));
        let ghost after = path_segments(path@.take(i + 1));
        assert(path@.take(i + 1).drop_last() == path@.take(i as int));
        if c == '/' {
            if seen {
                module.append("::");
                module.append(path.substring_char(start, i));
                assert(after.drop_last().skip(1).drop_last() == before.drop_last().skip(1));
            }
            seen = true;
            start = i + 1;
        } else {
            assert(after.drop_last() == before.drop_last());
        }
        i += 1;
    }
    let ghost all = path_segments(path@);
    assert(path@.take(i as int) == path@);
    if seen {
        module.append("::");
        module.append(path.substring_char(start, i));
        assert(all.skip(1).drop_last() == all.drop_last().skip(1));
    }
    module
}

/// The two generated sources, each with the path it is written to.
#[derive(Debug, PartialEq, Eq)]
pub struct GeneratedSources {
    pub factory_path: String,
    pub factory_source: String,
    pub aggregator_path: String,
    pub aggregator_source: String,
}

/// Generates the factory source for the output directory `path`, and the
/// module aggregator that stands beside that directory. Files and messages
/// keep the order they have in `v`.
pub fn generate_factory_file(path: &str, v: &Vec<ProtoMessageInfo>) -> (out: GeneratedSources)
    ensures
        out.factory_path@ == path@ + "/factory.rs"@,
        out.factory_source@ == factory_text(path@, v.deep_view()),
        out.aggregator_path@ == path@ + "/../protos.rs"@,
        out.aggregator_source@ == aggregator_text(v.deep_view()),
{
    let ghost files = v.deep_view();
    let module = crate_module_path(path);
    let mut factory = String::from_str(REGISTRY_TEMPLATE);
    factory.append("\n\n");
    let mut aggregator = String::from_str("pub mod factory;\n");

    let mut i: usize = 0;
    while i < v.len()
        invariant
            i <= v.len(),
            files == v.deep_view(),
            factory@ == REGISTRY_TEMPLATE@ + "\n\n"@ + use_lines(module@, files.take(i as int)),
            aggregator@ == "pub mod factory;\n"@ + mod_lines(files.take(i as int)),
        decreases v.len() - i,
    {
        let name = v[i].file_name();
        assert(files.take(i + 1).drop_last() == files.take(i as int));
        factory.append("use ");
        factory.append(module.as_str());
        factory.append("::");
        factory.append(name);
        factory.append(";\n");
        aggregator.append("pub mod ");
        aggregator.append(name);
        aggregator.append(";\n");
        i += 1;
    }

    factory.append("\nfn init_descriptors() {");
    aggregator.append("pub use factory::get_id;\npub use factory::get_descriptor;\n");
    let ghost factory_head = factory@;
    let ghost aggregator_head = aggregator@;

    let mut i: usize = 0;
    while i < v.len()
        invariant
            i <= v.len(),
            files == v.deep_view(),
            factory@ == factory_head + register_lines(files.take(i as int)),
            aggregator@ == aggregator_head + reexport_lines(files.take(i as int)),
        decreases v.len() - i,
    {
        let name = v[i].file_name();
        let messages = v[i].messages();
        let ghost records = messages.deep_view();
        assert(files.take(i + 1).drop_last() == files.take(i as int));
        let ghost factory_file = factory@;
        let ghost aggregator_file = aggregator@;
        let mut j: usize = 0;
        while j < messages.len()
            invariant
                j <= messages.len(),
                records == messages.deep_view(),
                factory@ == factory_file + register_lines_of(name@, records.take(j as int)),
                aggregator@ == aggregator_file + reexport_lines_of(name@, records.take(j as int)),
            decreases messages.len() - j,
        {
            let message = &messages[j];
            assert(records.take(j + 1).drop_last() == records.take(j as int));
            factory.append("\n    register::<");
            factory.append(name);
            factory.append("::");
            factory.append(message.name());
            factory.append(">(");
            factory.append(message.id());
            factory.append(");");
            aggregator.append("pub use ");
            aggregator.append(name);
            aggregator.append("::");
            aggregator.append(message.name());
            aggregator.append(";\n");
            j += 1;
        }
        assert(records.take(j as int) == records);
        i += 1;
    }
    assert(files.take(i as int) == files);
    factory.append("\n}\n");

    GeneratedSources {
        factory_path: String::from_str(path).concat("/factory.rs"),
        factory_source: factory,
        aggregator_path: String::from_str(path).concat("/../protos.rs"),
        aggregator_source: aggregator,
    }
}

/// A path without a slash is its own only segment.
pub proof fn lemma_segments_of_plain(path: Seq<char>)
    requires
        forall|i: int| 0 <= i < path.len() ==> path[i] != '/',
    ensures
        path_segments(path) == seq![path],
    decreases path.len(),
{
    if path.len() == 0 {
        assert(path == Seq::<char>::empty());
    } else {
        lemma_segments_of_plain(path.drop_last());
        assert(path.drop_last().push(path.last()) == path);
        assert(seq![path.drop_last()].drop_last().push(path) == seq![path]);
    }
}

/// A path has at least one segment.
proof fn lemma_segments_nonempty(path: Seq<char>)
    ensures
        path_segments(path).len() >= 1,
    decreases path.len(),
{
    if path.len() > 0 {
        lemma_segments_nonempty(path.drop_last());
    }
}

/// The segments of two paths joined by a slash are the segments of the
/// first, then those of the second.
pub proof fn lemma_segments_of_joined(a: Seq<char>, b: Seq<char>)
    ensures
        path_segments(a + seq!['/'] + b) == path_segments(a) + path_segments(b),
    decreases b.len(),
{
    let joined = a + seq!['/'] + b;
    if b.len() == 0 {
        assert(joined.drop_last() == a);
    } else {
        assert(joined.drop_last() == a + seq!['/'] + b.drop_last());
        lemma_segments_of_joined(a, b.drop_last());
        lemma_segments_nonempty(b.drop_last());
        let left = path_segments(a);
        let right = path_segments(b.drop_last());
        assert((left + right).drop_last() == left + right.drop_last());
    }
}

/// The module path leaves out what stands before the first slash, and names
/// the segments behind it.
pub proof fn lemma_crate_path_drops_the_first_segment(first: Seq<char>, rest: Seq<char>)
    requires
        forall|i: int| 0 <= i < first.len() ==> first[i] != '/',
    ensures
        crate_path(first) == "crate"@,
        crate_path(first + seq!['/'] + rest) == "crate"@ + scoped(path_segments(rest)),
{
    lemma_segments_of_plain(first);
    lemma_segments_of_joined(first, rest);
    assert(seq![first].skip(1) == Seq::<Seq<char>>::empty());
    assert((seq![first] + path_segments(rest)).skip(1) == path_segments(rest));
}

/// The generated texts are functions of the output directory and of the
/// records in their order: the same records give the same two texts,
/// character for character.
pub proof fn lemma_same_records_same_sources(
    path: Seq<char>,
    a: Seq<ProtoMessageInfoView>,
    b: Seq<ProtoMessageInfoView>,
)
    requires
        a.len() == b.len(),
        forall|i: int| 0 <= i < a.len() ==> a[i] == b[i],
    ensures
        factory_text(path, a) == factory_text(path, b),
        aggregator_text(a) == aggregator_text(b),
{
    assert(a =~= b);
}

} // verus!
