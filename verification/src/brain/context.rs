//! The folded context that is handed to the Architect.
use vstd::prelude::*;
use crate::brain::fold::{fold_outcome, FoldEngine};
use crate::syntax::{rust_parse, RustParser};
use crate::text::{push_str, string_from};

verus! {

/// The note that opens the folded context.
pub open spec fn origami_header() -> Seq<char> {
    "/// NOTE: The original full source is always used when applying the actual edit (Coder never sees the folded version for writes).\n\n"@
}

/// The section for one file: a header line with its path, then its folded
/// text.
pub open spec fn origami_section(path: Seq<char>, folded: Seq<char>) -> Seq<char> {
    "--- FILE: "@ + path + " ---\n"@ + folded + "\n\n"@
}

/// The folded context of the files that could be read, each given as its
/// path and its contents, folded for `prompt`: the note, then one section per
/// file, in order. Each file's fold goes through the engine and its cache as
/// `fold_document` does, with the parser given.
pub fn extract_origami_context(
    folder: &mut FoldEngine,
    files: &Vec<(String, String)>,
    prompt: &str,
    parser: &mut RustParser,
) -> (combined: String)
    requires
        old(folder).wf(),
    ensures
        final(folder).wf(),
        final(parser).ready() == old(parser).ready(),
        exists|engines: Seq<FoldEngine>, folded: Seq<Seq<char>>|
            folding_chain(engines, folded, files@, prompt@, old(parser).ready(), *old(folder), *final(folder))
                && combined@ == origami_header() + sections(files@, folded),
{
    let mut combined = string_from(
        "/// NOTE: The original full source is always used when applying the actual edit (Coder never sees the folded version for writes).\n\n",
    );
    let ghost mut folded: Seq<Seq<char>> = seq![];
    let ghost mut engines: Seq<FoldEngine> = seq![*folder];
    let mut i: usize = 0;
    assert(files@.take(0) =~= Seq::<(String, String)>::empty());
    while i < files.len()
        invariant
            i <= files.len(),
            folder.wf(),
            parser.ready() == old(parser).ready(),
            folded.len() == i,
            folding_chain(engines, folded, files@.take(i as int), prompt@, parser.ready(), *old(folder), *folder),
            combined@ == origami_header() + sections(files@.take(i as int), folded),
        decreases files.len() - i,
    {
        let (path, content) = (&files[i].0, &files[i].1);
        let ghost e0 = *folder;
        let f = folder.fold_document(path.as_str(), content.as_str(), prompt, parser);
        let ghost before = combined@;
        push_str(&mut combined, "--- FILE: ");
        push_str(&mut combined, path.as_str());
        push_str(&mut combined, " ---\n");
        push_str(&mut combined, f.as_str());
        push_str(&mut combined, "\n\n");
        proof {
            let fs = folded.push(f@);
            assert(files@.take(i + 1).drop_last() =~= files@.take(i as int));
            assert(fs.drop_last() =~= folded);
            assert(combined@ =~= origami_header() + sections(files@.take(i + 1), fs));
            let es = engines.push(*folder);
            assert forall|j: int| 0 <= j < i + 1 implies fold_outcome(
                #[trigger] es[j],
                es[j + 1],
                files@.take(i + 1)[j].0@,
                files@.take(i + 1)[j].1@,
                prompt@,
                rust_parse(parser.ready(), files@.take(i + 1)[j].1@),
                fs[j],
            ) by {
                if j < i {
                    assert(files@.take(i + 1)[j] == files@.take(i as int)[j]);
                    assert(es[j] == engines[j] && es[j + 1] == engines[j + 1]);
                }
            }
            folded = fs;
            engines = es;
        }
        i = i + 1;
    }
    assert(files@.take(i as int) =~= files@);
    assert(folding_chain(engines, folded, files@, prompt@, parser.ready(), *old(folder), *folder));
    combined
}

/// `engines` are the states of the fold engine, from `first` to `last`,
/// through folding each file in turn with a parser that is `ready` (or not),
/// and `folded` the folded texts.
pub open spec fn folding_chain(
    engines: Seq<FoldEngine>,
    folded: Seq<Seq<char>>,
    files: Seq<(String, String)>,
    prompt: Seq<char>,
    ready: bool,
    first: FoldEngine,
    last: FoldEngine,
) -> bool {
    &&& engines.len() == files.len() + 1
    &&& folded.len() == files.len()
    &&& engines[0] == first
    &&& engines.last() == last
    &&& forall|j: int|
        0 <= j < files.len() ==> fold_outcome(
            #[trigger] engines[j],
            engines[j + 1],
            files[j].0@,
            files[j].1@,
            prompt,
            rust_parse(ready, files[j].1@),
            folded[j],
        )
}

/// The sections of the files, with the folded texts `folded`, in order.
pub open spec fn sections(files: Seq<(String, String)>, folded: Seq<Seq<char>>) -> Seq<char>
    decreases files.len(),
{
    if files.len() == 0 || folded.len() == 0 {
        seq![]
    } else {
        sections(files.drop_last(), folded.drop_last()) + origami_section(
            files.last().0@,
            folded.last(),
        )
    }
}

} // verus!
