//! First-run bookkeeping and the command bar's canned suggestion list.

use rand::seq::SliceRandom;
use vstd::prelude::*;
use vstd::string::StrSliceExecFns;
use vstd::string::StringSliceAdditionalSpecFns;
use crate::text::{append_bytes, bytes_eq, copy_bytes};

verus! {

/// Remembers where the marker file lives that says the application has run
/// before. Probing and writing that file is the host's business.
pub struct FirstRunStore {
    pub has_run_path: Vec<u8>,
}

impl FirstRunStore {
    /// The store for a configuration directory: the marker file
    /// `has_run_before.txt` directly inside it.
    pub fn from_config_dir(dir: &Vec<u8>) -> (r: FirstRunStore)
        ensures
            r.has_run_path@ == dir@ + "/has_run_before.txt".spec_bytes(),
    {
        let mut p = copy_bytes(dir);
        append_bytes(&mut p, &"/has_run_before.txt".as_bytes_vec());
        FirstRunStore { has_run_path: p }
    }
}

/// The deterministic suggestion pool for the command bar, before the random
/// pick: file and window operations, terminal staples, mode-dependent
/// editing commands, the assistant commands, and — when a file is open —
/// rename and delete lines for it.
pub open spec fn suggestion_pool(mode: Seq<u8>, language: Seq<u8>, current_file: Seq<u8>) -> Seq<
    Seq<u8>,
> {
    base_suggestions() + mode_suggestions(mode, language) + assistant_suggestions()
        + file_suggestions(current_file)
}

/// The suggestions offered whatever the mode.
pub open spec fn base_suggestions() -> Seq<Seq<u8>> {
    seq![
        "new markdown".spec_bytes(),
        "new javascript".spec_bytes(),
        "new python".spec_bytes(),
        "new html".spec_bytes(),
        "new rust".spec_bytes(),
        "new c".spec_bytes(),
        "new cpp".spec_bytes(),
        "new typescript".spec_bytes(),
        "open file".spec_bytes(),
        "save".spec_bytes(),
        "save as".spec_bytes(),
        "minimize".spec_bytes(),
        "fullscreen".spec_bytes(),
        "help".spec_bytes(),
        "git status".spec_bytes(),
        "ls".spec_bytes(),
        "pwd".spec_bytes(),
        "npm run dev".spec_bytes(),
        "npm start".spec_bytes(),
    ]
}

/// The mode-dependent editing suggestions.
pub open spec fn mode_suggestions(mode: Seq<u8>, language: Seq<u8>) -> Seq<Seq<u8>> {
    if mode == "code".spec_bytes() {
        if language == "javascript".spec_bytes() || language == "typescript".spec_bytes() {
            seq![
                "npm install".spec_bytes(),
                "format code".spec_bytes(),
                "lint code".spec_bytes(),
                "optimize imports".spec_bytes(),
                "node index.js".spec_bytes(),
            ]
        } else if language == "python".spec_bytes() {
            seq![
                "pip install".spec_bytes(),
                "python main.py".spec_bytes(),
                "format with black".spec_bytes(),
                "run tests".spec_bytes(),
            ]
        } else if language == "rust".spec_bytes() {
            seq![
                "cargo run".spec_bytes(),
                "cargo build".spec_bytes(),
                "cargo test".spec_bytes(),
                "rustfmt".spec_bytes(),
            ]
        } else if language == "c".spec_bytes() || language == "cpp".spec_bytes() {
            seq![
                "gcc main.c".spec_bytes(),
                "g++ main.cpp".spec_bytes(),
                "make build".spec_bytes(),
                "clang-format".spec_bytes(),
            ]
        } else {
            seq![
                "format ".spec_bytes() + language,
                "indent code".spec_bytes(),
                "find references".spec_bytes(),
            ]
        }
    } else if mode == "markdown".spec_bytes() {
        seq![
            "bold text".spec_bytes(),
            "italic text".spec_bytes(),
            "insert heading".spec_bytes(),
            "insert code block".spec_bytes(),
            "insert table".spec_bytes(),
            "insert link".spec_bytes(),
            "insert image".spec_bytes(),
            "export to pdf".spec_bytes(),
            "check spelling".spec_bytes(),
        ]
    } else {
        Seq::<Seq<u8>>::empty()
    }
}

/// The assistant suggestions, always offered.
pub open spec fn assistant_suggestions() -> Seq<Seq<u8>> {
    seq![
        "copilot start".spec_bytes(),
        "copilot sign in".spec_bytes(),
        "copilot sign out".spec_bytes(),
        "copilot status".spec_bytes(),
        "copilot stop".spec_bytes(),
        "explain this code".spec_bytes(),
        "optimize this code".spec_bytes(),
        "generate documentation".spec_bytes(),
        "help me debug".spec_bytes(),
    ]
}

/// The suggestions tied to the open file, when there is one.
pub open spec fn file_suggestions(current_file: Seq<u8>) -> Seq<Seq<u8>> {
    if current_file.len() > 0 {
        seq![
            "rename ".spec_bytes() + current_file + " to newname".spec_bytes(),
            "delete ".spec_bytes() + current_file,
        ]
    } else {
        Seq::<Seq<u8>>::empty()
    }
}

/// Relies on rand's `SliceRandom::shuffle` with `thread_rng`: a Fisher-Yates
/// pass of in-place swaps, so the result is a permutation of the input — the
/// length is kept and every element of the result was an element before.
#[verifier::external_body]
fn shuffle_in_place(v: &mut Vec<Vec<u8>>)
    ensures
        final(v)@.len() == old(v)@.len(),
        final(v)@.to_multiset() == old(v)@.to_multiset(),
        forall|k: int| 0 <= k < final(v)@.len() ==> old(v)@.contains(final(v)@[k]),
{
    v.shuffle(&mut rand::thread_rng());
}

/// Up to twelve command-bar suggestions, drawn at random from the
/// deterministic pool for the given mode, language and open file; every
/// returned line is one of the pool's.
fn push_base_suggestions(s: &mut Vec<Vec<u8>>)
    ensures
        final(s)@.map_values(|x: Vec<u8>| x@) == old(s)@.map_values(|x: Vec<u8>| x@)
            + base_suggestions(),
{
    let ghost prev = s@.map_values(|x: Vec<u8>| x@);
    s.push("new markdown".as_bytes_vec());
    s.push("new javascript".as_bytes_vec());
    s.push("new python".as_bytes_vec());
    s.push("new html".as_bytes_vec());
    s.push("new rust".as_bytes_vec());
    s.push("new c".as_bytes_vec());
    s.push("new cpp".as_bytes_vec());
    s.push("new typescript".as_bytes_vec());
    s.push("open file".as_bytes_vec());
    s.push("save".as_bytes_vec());
    s.push("save as".as_bytes_vec());
    s.push("minimize".as_bytes_vec());
    s.push("fullscreen".as_bytes_vec());
    s.push("help".as_bytes_vec());
    s.push("git status".as_bytes_vec());
    s.push("ls".as_bytes_vec());
    s.push("pwd".as_bytes_vec());
    s.push("npm run dev".as_bytes_vec());
    s.push("npm start".as_bytes_vec());
    proof {
        assert(s@.map_values(|x: Vec<u8>| x@) =~= prev + base_suggestions());
    }
}

#[verifier::rlimit(40)]
fn push_mode_suggestions(s: &mut Vec<Vec<u8>>, mode: &Vec<u8>, editor_language: &Vec<u8>)
    ensures
        final(s)@.map_values(|x: Vec<u8>| x@) == old(s)@.map_values(|x: Vec<u8>| x@)
            + mode_suggestions(mode@, editor_language@),
{
    let ghost prev = s@.map_values(|x: Vec<u8>| x@);
    if bytes_eq(mode, &"code".as_bytes_vec()) {
        if bytes_eq(editor_language, &"javascript".as_bytes_vec()) || bytes_eq(
            editor_language,
            &"typescript".as_bytes_vec(),
        ) {
            s.push("npm install".as_bytes_vec());
            s.push("format code".as_bytes_vec());
            s.push("lint code".as_bytes_vec());
            s.push("optimize imports".as_bytes_vec());
            s.push("node index.js".as_bytes_vec());
        } else if bytes_eq(editor_language, &"python".as_bytes_vec()) {
            s.push("pip install".as_bytes_vec());
            s.push("python main.py".as_bytes_vec());
            s.push("format with black".as_bytes_vec());
            s.push("run tests".as_bytes_vec());
        } else if bytes_eq(editor_language, &"rust".as_bytes_vec()) {
            s.push("cargo run".as_bytes_vec());
            s.push("cargo build".as_bytes_vec());
            s.push("cargo test".as_bytes_vec());
            s.push("rustfmt".as_bytes_vec());
        } else if bytes_eq(editor_language, &"c".as_bytes_vec()) || bytes_eq(
            editor_language,
            &"cpp".as_bytes_vec(),
        ) {
            s.push("gcc main.c".as_bytes_vec());
            s.push("g++ main.cpp".as_bytes_vec());
            s.push("make build".as_bytes_vec());
            s.push("clang-format".as_bytes_vec());
        } else {
            let mut f = "format ".as_bytes_vec();
            append_bytes(&mut f, editor_language);
            s.push(f);
            s.push("indent code".as_bytes_vec());
            s.push("find references".as_bytes_vec());
        }
    } else if bytes_eq(mode, &"markdown".as_bytes_vec()) {
        s.push("bold text".as_bytes_vec());
        s.push("italic text".as_bytes_vec());
        s.push("insert heading".as_bytes_vec());
        s.push("insert code block".as_bytes_vec());
        s.push("insert table".as_bytes_vec());
        s.push("insert link".as_bytes_vec());
        s.push("insert image".as_bytes_vec());
        s.push("export to pdf".as_bytes_vec());
        s.push("check spelling".as_bytes_vec());
    }
    proof {
        assert(s@.map_values(|x: Vec<u8>| x@) =~= prev + mode_suggestions(
            mode@,
            editor_language@,
        ));
    }
}

fn push_assistant_suggestions(s: &mut Vec<Vec<u8>>)
    ensures
        final(s)@.map_values(|x: Vec<u8>| x@) == old(s)@.map_values(|x: Vec<u8>| x@)
            + assistant_suggestions(),
{
    let ghost prev = s@.map_values(|x: Vec<u8>| x@);
    s.push("copilot start".as_bytes_vec());
    s.push("copilot sign in".as_bytes_vec());
    s.push("copilot sign out".as_bytes_vec());
    s.push("copilot status".as_bytes_vec());
    s.push("copilot stop".as_bytes_vec());
    s.push("explain this code".as_bytes_vec());
    s.push("optimize this code".as_bytes_vec());
    s.push("generate documentation".as_bytes_vec());
    s.push("help me debug".as_bytes_vec());
    proof {
        assert(s@.map_values(|x: Vec<u8>| x@) =~= prev + assistant_suggestions());
    }
}

fn push_file_suggestions(s: &mut Vec<Vec<u8>>, current_file: &Vec<u8>)
    ensures
        final(s)@.map_values(|x: Vec<u8>| x@) == old(s)@.map_values(|x: Vec<u8>| x@)
            + file_suggestions(current_file@),
{
    let ghost prev = s@.map_values(|x: Vec<u8>| x@);
    if current_file.len() > 0 {
        let mut rn = "rename ".as_bytes_vec();
        append_bytes(&mut rn, current_file);
        append_bytes(&mut rn, &" to newname".as_bytes_vec());
        s.push(rn);
        let mut del = "delete ".as_bytes_vec();
        append_bytes(&mut del, current_file);
        s.push(del);
    }
    proof {
        assert(s@.map_values(|x: Vec<u8>| x@) =~= prev + file_suggestions(current_file@));
    }
}

pub fn get_command_suggestions(
    mode: &Vec<u8>,
    editor_language: &Vec<u8>,
    _context: &Vec<u8>,
    current_file: &Vec<u8>,
) -> (r: Vec<Vec<u8>>)
    ensures
        r@.len() == if suggestion_pool(mode@, editor_language@, current_file@).len() < 12 {
            suggestion_pool(mode@, editor_language@, current_file@).len() as int
        } else {
            12int
        },
        forall|k: int|
            0 <= k < r@.len() ==> suggestion_pool(mode@, editor_language@, current_file@).contains(
                (#[trigger] r@[k])@,
            ),
{
    let ghost pool = suggestion_pool(mode@, editor_language@, current_file@);
    let mut s: Vec<Vec<u8>> = Vec::new();
    proof {
        assert(s@.map_values(|x: Vec<u8>| x@) =~= Seq::<Seq<u8>>::empty());
    }
    push_base_suggestions(&mut s);
    push_mode_suggestions(&mut s, mode, editor_language);
    push_assistant_suggestions(&mut s);
    push_file_suggestions(&mut s, current_file);
    proof {
        assert(s@.map_values(|x: Vec<u8>| x@) =~= pool);
    }
    let ghost before = s@;
    shuffle_in_place(&mut s);
    proof {
        assert forall|k: int| 0 <= k < s@.len() implies pool.contains((#[trigger] s@[k])@) by {
            assert(before.contains(s@[k]));
            let j = choose|j: int| 0 <= j < before.len() && before[j] == s@[k];
            assert(pool[j] == before[j]@);
        }
        assert(pool.len() == s@.len());
    }
    let ghost shuffled = s@;
    s.truncate(12);
    proof {
        assert forall|k: int| 0 <= k < s@.len() implies pool.contains((#[trigger] s@[k])@) by {
            assert(s@[k] == shuffled[k]);
        }
    }
    s
}

} // verus!
