use vstd::prelude::*;

use crate::text::{
    base_name, base_name_start, blank, char_vec, ends_with, free_of, has_suffix, is_blank,
};

verus! {

broadcast use vstd::string::group_string_axioms;

/// Declares `std::path::PathBuf` so that the shared state can hold the served
/// directory. It is carried through as an opaque value; nothing is assumed of it.
#[verifier::external_type_specification]
#[verifier::external_body]
pub struct ExPathBuf(std::path::PathBuf);

/// A message sent to the print endpoint.
pub struct PrintReq {
    /// A label, or a path hint that may name the file to write.
    pub desc: String,
    /// What is echoed and, where a file is named, written.
    pub msg: String,
}

/// What every request shares: the directory the server was started on.
pub struct AppState {
    pub srvdir: std::path::PathBuf,
}

/// What becomes of a request's message on disk.
pub enum Persist {
    /// The description names no text, log or JSON file: nothing is written.
    NotEligible,
    /// Nothing follows the description's last separator: nothing is written.
    NoFileName,
    /// The derived name would not be a single entry of the directory: nothing is written.
    Rejected,
    /// Write `body` to the entry `name` directly under the served directory.
    Write { name: String, body: String },
}

/// The console text and the file write that a request calls for.
pub struct PrintPlan {
    pub console: String,
    pub persist: Persist,
}

pub open spec fn txt_suffix() -> Seq<char> {
    seq!['.', 't', 'x', 't']
}

pub open spec fn log_suffix() -> Seq<char> {
    seq!['.', 'l', 'o', 'g']
}

pub open spec fn json_suffix() -> Seq<char> {
    seq!['.', 'j', 's', 'o', 'n']
}

/// The description names a file whose kind may be written.
pub open spec fn loggable(desc: Seq<char>) -> bool {
    ends_with(desc, txt_suffix()) || ends_with(desc, log_suffix()) || ends_with(desc, json_suffix())
}

/// What is echoed: the description, then the message on a line of its own
/// unless the message is blank.
pub open spec fn console_of(desc: Seq<char>, msg: Seq<char>) -> Seq<char> {
    if blank(msg) {
        desc
    } else {
        desc + seq!['\n'] + msg
    }
}

/// The name of the file written for `desc`: its base name behind an underscore.
pub open spec fn target_name(desc: Seq<char>, sep: char) -> Seq<char> {
    seq!['_'] + base_name(desc, sep)
}

/// `name` names an entry directly inside a directory: it is not empty, holds
/// neither `sep` nor `/` (a separator on every platform), and is neither `.`
/// nor `..`.
pub open spec fn single_component(name: Seq<char>, sep: char) -> bool {
    name.len() > 0 && free_of(name, sep) && free_of(name, '/') && name != seq!['.'] && name
        != seq!['.', '.']
}

/// The request leads to a file write.
pub open spec fn writes(desc: Seq<char>, sep: char) -> bool {
    loggable(desc) && base_name(desc, sep).len() > 0 && single_component(target_name(desc, sep), sep)
}

/// What becomes of the message of a request with description `desc`, where
/// paths are separated by `sep`.
pub open spec fn persist_spec(desc: Seq<char>, msg: Seq<char>, sep: char, p: Persist) -> bool {
    match p {
        Persist::NotEligible => !loggable(desc),
        Persist::NoFileName => loggable(desc) && base_name(desc, sep).len() == 0,
        Persist::Rejected => loggable(desc) && base_name(desc, sep).len() > 0 && !single_component(
            target_name(desc, sep),
            sep,
        ),
        Persist::Write { name, body } => writes(desc, sep) && name@ == target_name(desc, sep)
            && body@ == msg,
    }
}

/// The text echoed to the console for a request.
pub fn console_text(req: &PrintReq) -> (r: String)
    ensures
        r@ == console_of(req.desc@, req.msg@),
{
    let mut r = String::from_str(req.desc.as_str());
    if !is_blank(req.msg.as_str()) {
        r.append("\n");
        r.append(req.msg.as_str());
        proof {
            reveal_strlit("\n");
        }
    }
    r
}

/// Whether `desc` ends with `.txt`, `.log` or `.json`.
pub fn is_loggable(desc: &str) -> (r: bool)
    ensures
        r == loggable(desc@),
{
    let cs = char_vec(desc);
    proof {
        reveal_strlit(".txt");
        reveal_strlit(".log");
        reveal_strlit(".json");
        assert(".txt"@ =~= txt_suffix());
        assert(".log"@ =~= log_suffix());
        assert(".json"@ =~= json_suffix());
    }
    has_suffix(&cs, ".txt") || has_suffix(&cs, ".log") || has_suffix(&cs, ".json")
}

/// Whether `name` is a single entry of a directory whose paths are separated by `sep`.
pub fn is_single_component(name: &str, sep: char) -> (r: bool)
    ensures
        r == single_component(name@, sep),
{
    let cs = char_vec(name);
    if cs.len() == 0 {
        return false;
    }
    if cs.len() <= 2 && cs[0] == '.' && (cs.len() == 1 || cs[1] == '.') {
        assert(cs@ =~= seq!['.'] || cs@ =~= seq!['.', '.']);
        return false;
    }
    assert(cs@ != seq!['.'] && cs@ != seq!['.', '.']) by {
        if cs@.len() <= 2 {
            assert(cs@[0] != '.' || (cs@.len() == 2 && cs@[1] != '.'));
        }
    }
    let mut i: usize = 0;
    while i < cs.len()
        invariant
            cs@ == name@,
            i <= cs.len(),
            forall|j: int| 0 <= j < i ==> cs@[j] != sep && cs@[j] != '/',
        decreases cs.len() - i,
    {
        if cs[i] == sep || cs[i] == '/' {
            return false;
        }
        i = i + 1;
    }
    true
}

/// What becomes of a message sent with description `desc`, where paths are
/// separated by `sep`: the file it goes to, if any, or why there is none.
pub fn plan_persist(desc: &str, msg: &String, sep: char) -> (r: Persist)
    ensures
        persist_spec(desc@, msg@, sep, r),
{
    if !is_loggable(desc) {
        return Persist::NotEligible;
    }
    let cs = char_vec(desc);
    let k = base_name_start(&cs, sep);
    if k == cs.len() {
        return Persist::NoFileName;
    }
    let base = desc.substring_char(k, cs.len());
    let mut name = String::from_str("_");
    name.append(base);
    proof {
        reveal_strlit("_");
        assert(name@ =~= target_name(desc@, sep));
    }
    if !is_single_component(name.as_str(), sep) {
        return Persist::Rejected;
    }
    Persist::Write { name, body: msg.clone() }
}

/// Everything a print request calls for: the console text, and the file
/// write if any, where paths are separated by `sep`.
pub fn plan(req: &PrintReq, sep: char) -> (r: PrintPlan)
    ensures
        r.console@ == console_of(req.desc@, req.msg@),
        persist_spec(req.desc@, req.msg@, sep, r.persist),
{
    PrintPlan { console: console_text(req), persist: plan_persist(req.desc.as_str(), &req.msg, sep) }
}

proof fn lemma_base_name_free_of(s: Seq<char>, sep: char)
    ensures
        free_of(base_name(s, sep), sep),
    decreases s.len(),
{
    if s.len() > 0 && s.last() != sep {
        lemma_base_name_free_of(s.drop_last(), sep);
        let b = base_name(s.drop_last(), sep);
        assert(forall|i: int| 0 <= i < b.len() ==> b.push(s.last())[i] == b[i]);
    }
}

/// A description that ends with `.txt`, `.log` or `.json` and has something
/// after its last separator always leads to a write of the whole message to
/// `_` followed by that base name, under any separator but the underscore
/// itself, where that base name holds no `/`.
pub proof fn loggable_description_is_written(desc: Seq<char>, msg: Seq<char>, sep: char)
    requires
        loggable(desc),
        base_name(desc, sep).len() > 0,
        sep != '_',
        free_of(base_name(desc, sep), '/'),
    ensures
        writes(desc, sep),
        forall|p: Persist| #[trigger]
            persist_spec(desc, msg, sep, p) ==> (p matches Persist::Write { name, body } && name@
                == target_name(desc, sep) && body@ == msg),
{
    let b = base_name(desc, sep);
    let n = target_name(desc, sep);
    lemma_base_name_free_of(desc, sep);
    assert(n[0] == '_');
    assert forall|i: int| 0 <= i < n.len() implies n[i] != sep && n[i] != '/' by {
        if i > 0 {
            assert(n[i] == b[i - 1]);
        }
    }
    assert(n.len() >= 2);
    assert(n != seq!['.']);
    assert(n != seq!['.', '.']) by {
        assert(seq!['.', '.'][0] == '.');
    }
}

/// Sending the same request again plans the same outcome: the same file, if
/// any, receives the same whole message.
pub proof fn same_request_same_outcome(
    desc: Seq<char>,
    msg: Seq<char>,
    sep: char,
    p: Persist,
    q: Persist,
)
    requires
        persist_spec(desc, msg, sep, p),
        persist_spec(desc, msg, sep, q),
    ensures
        p is NotEligible <==> q is NotEligible,
        p is NoFileName <==> q is NoFileName,
        p is Rejected <==> q is Rejected,
        p is Write <==> q is Write,
        p is Write ==> p->Write_name@ == q->Write_name@ && p->Write_body@ == q->Write_body@,
{
}

} // verus!
