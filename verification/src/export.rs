//! Helpers of the export tool: the file extension of the chosen format and
//! the default output path.
use vstd::prelude::*;
use crate::text::{replace_char, replace_char_with};

verus! {

/// Index of the first argument equal to `a`, if any.
pub open spec fn first_index_of(args: Seq<String>, a: Seq<char>) -> Option<int>
    decreases args.len(),
{
    if args.len() == 0 {
        None
    } else {
        match first_index_of(args.drop_last(), a) {
            Some(i) => Some(i),
            None => if args.last()@ == a {
                Some(args.len() - 1)
            } else {
                None
            },
        }
    }
}

/// The file extension of a format name.
pub open spec fn extension_of(format: Seq<char>) -> Seq<char> {
    if format == "json"@ {
        "json"@
    } else if format == "markdown"@ || format == "md"@ {
        "md"@
    } else if format == "jsonl"@ {
        "jsonl"@
    } else {
        "bin"@
    }
}

/// The extension of the export file: that of the value following the
/// first `--format`, or `bin` when there is none.
pub open spec fn extension_from_args(args: Seq<String>) -> Seq<char> {
    match first_index_of(args, "--format"@) {
        Some(i) => if i + 1 < args.len() {
            extension_of(args[i + 1]@)
        } else {
            "bin"@
        },
        None => "bin"@,
    }
}

/// The file extension of the export, read from the arguments.
pub fn format_from_payload(args: &Vec<String>) -> (r: String)
    ensures
        r@ == extension_from_args(args@),
{
    let flag = String::from_str("--format");
    let mut i: usize = 0;
    while i < args.len()
        invariant
            i <= args@.len(),
            flag@ == "--format"@,
            first_index_of(args@.take(i as int), "--format"@) is None,
        decreases args@.len() - i,
    {
        assert(args@.take(i + 1).drop_last() =~= args@.take(i as int));
        if args[i] == flag {
            proof {
                lemma_first_index_prefix(args@, i as int);
            }
            if i + 1 < args.len() {
                let f = &args[i + 1];
                if *f == String::from_str("json") {
                    return String::from_str("json");
                } else if *f == String::from_str("markdown") || *f == String::from_str("md") {
                    return String::from_str("md");
                } else if *f == String::from_str("jsonl") {
                    return String::from_str("jsonl");
                } else {
                    return String::from_str("bin");
                }
            }
            return String::from_str("bin");
        }
        i = i + 1;
    }
    assert(args@.take(args@.len() as int) =~= args@);
    String::from_str("bin")
}

/// When the first match lies at `i`, it is the first match of the whole.
proof fn lemma_first_index_prefix(args: Seq<String>, i: int)
    requires
        0 <= i < args.len(),
        first_index_of(args.take(i), "--format"@) is None,
        args[i]@ == "--format"@,
    ensures
        first_index_of(args, "--format"@) == Some(i),
    decreases args.len(),
{
    if i == args.len() - 1 {
        assert(args.drop_last() =~= args.take(i));
    } else {
        assert(args.drop_last().take(i) =~= args.take(i));
        lemma_first_index_prefix(args.drop_last(), i);
    }
}

/// `./exports/az-<timestamp with ':' replaced by '-'>.<ext>`.
pub open spec fn default_path_text(timestamp: Seq<char>, ext: Seq<char>) -> Seq<char> {
    "./exports/az-"@ + replace_char(timestamp, ':', "-"@) + "."@ + ext
}

/// The default output path of an export made at `timestamp`.
pub fn default_path(timestamp: &str, ext: &str) -> (r: String)
    ensures
        r@ == default_path_text(timestamp@, ext@),
{
    let safe = replace_char_with(timestamp, ':', "-");
    let mut p = String::from_str("./exports/az-");
    p.append(safe.as_str());
    p.append(".");
    p.append(ext);
    p
}

} // verus!
