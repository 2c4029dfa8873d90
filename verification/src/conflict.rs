//! Other programs that change display colours.

use vstd::prelude::*;

use crate::text::{
    characters, comes_before, decimal, decimal_reads_back, decimal_text, is_digit, join, joined,
    lemma_precedes_irreflexive, lemma_precedes_total, lemma_precedes_transitive, parse_number,
    parsed_number, precedes, text_of, texts, trim, trimmed,
};

verus! {

/// Well-known programs that want the gamma control of a display for themselves.
pub const COMPETITOR_NAMES: [&'static str; 5] = [
    "gammastep",
    "gammastep-indicator",
    "wlsunset",
    "redshift",
    "redshift-gtk",
];

/// Whether a program is a well-known one.
pub open spec fn is_competitor(name: Seq<char>) -> bool {
    exists|i: int| 0 <= i < 5 && (#[trigger] COMPETITOR_NAMES@[i])@ == name
}

/// Whether a program is a well-known one.
pub fn known_competitor(name: &str) -> (r: bool)
    ensures
        r == is_competitor(name@),
{
    let names: [&'static str; 5] = COMPETITOR_NAMES;
    let mut i: usize = 0;
    while i < 5
        invariant
            i <= 5,
            names@ == COMPETITOR_NAMES@,
            forall|j: int| 0 <= j < i ==> (#[trigger] COMPETITOR_NAMES@[j])@ != name@,
        decreases 5 - i,
    {
        if *names[i] == *name {
            assert(COMPETITOR_NAMES@[i as int]@ == name@);
            return true;
        }
        i = i + 1;
    }
    false
}

// ── the program behind a process ─────────────────────────────────────────────

/// Where the last slash of a text stands.
pub open spec fn last_slash(path: Seq<char>) -> int
    decreases path.len(),
{
    if path.len() == 0 {
        -1
    } else if path.last() == '/' {
        path.len() - 1
    } else {
        last_slash(path.drop_last())
    }
}

proof fn lemma_last_slash(path: Seq<char>)
    ensures
        -1 <= last_slash(path) < path.len(),
        last_slash(path) >= 0 ==> path[last_slash(path)] == '/',
    decreases path.len(),
{
    if path.len() > 0 && path.last() != '/' {
        lemma_last_slash(path.drop_last());
    }
}

/// The final component of a path, if it names a file. A trailing slash and a component that is a
/// single dot behind a slash do not count; two dots name no file.
pub open spec fn file_name(path: Seq<char>) -> Option<Seq<char>>
    decreases path.len(),
{
    let component = path.skip(last_slash(path) + 1);
    if path.len() == 0 {
        None
    } else if path.last() == '/' {
        file_name(path.drop_last())
    } else if component == seq!['.'] {
        file_name(path.drop_last())
    } else if component == seq!['.', '.'] {
        None
    } else {
        Some(component)
    }
}

/// The final component of a path, if it names a file.
pub fn path_file_name(path: &[char]) -> (name: Option<String>)
    ensures
        match name {
            Some(text) => file_name(path@) == Some(text@),
            None => file_name(path@) is None,
        },
{
    let mut end: usize = path.len();
    proof {
        assert(path@.take(end as int) =~= path@);
    }
    while end > 0
        invariant
            end <= path.len(),
            file_name(path@) == file_name(path@.take(end as int)),
        decreases end,
    {
        let ghost current = path@.take(end as int);
        proof {
            lemma_last_slash(current);
            assert(current.drop_last() =~= path@.take(end - 1));
        }
        if path[end - 1] == '/' {
            end = end - 1;
            continue;
        }
        let mut start: usize = end;
        while start > 0 && path[start - 1] != '/'
            invariant
                start <= end <= path.len(),
                current == path@.take(end as int),
                last_slash(current) == last_slash(path@.take(start as int)),
            decreases start,
        {
            proof {
                assert(path@.take(start as int).drop_last() =~= path@.take(start - 1));
            }
            start = start - 1;
        }
        proof {
            lemma_last_slash(path@.take(start as int));
            assert(last_slash(current) + 1 == start);
            assert(current.skip(start as int) =~= path@.subrange(start as int, end as int));
        }
        if end - start == 1 && path[start] == '.' {
            proof {
                assert(current.skip(start as int) =~= seq!['.']);
            }
            end = end - 1;
            continue;
        }
        if end - start == 2 && path[start] == '.' && path[start + 1] == '.' {
            proof {
                assert(current.skip(start as int) =~= seq!['.', '.']);
            }
            return None;
        }
        proof {
            let component = current.skip(start as int);
            if component == seq!['.'] {
                assert(component[0] == '.');
            }
            if component == seq!['.', '.'] {
                assert(component[0] == '.' && component[1] == '.');
            }
        }
        return Some(text_of(vstd::slice::slice_subrange(path, start, end)));
    }
    None
}

/// The program that a command-line argument names.
pub open spec fn program(argument: Seq<char>) -> Seq<char> {
    match file_name(argument) {
        Some(name) => name,
        None => argument,
    }
}

/// Where the first null character stands, from a position on; the end of the text if there is none.
pub open spec fn null_from(text: Seq<char>, from: int) -> int
    decreases text.len() - from,
{
    if from >= text.len() {
        text.len() as int
    } else if text[from] == '\0' {
        from
    } else {
        null_from(text, from + 1)
    }
}

/// The first well-known program among the arguments of a command line, which null characters part,
/// from a position on.
pub open spec fn competitor_in(cmdline: Seq<char>, from: int) -> Option<Seq<char>>
    decreases cmdline.len() - from,
{
    if from < 0 || from > cmdline.len() {
        None
    } else {
        let end = null_from(cmdline, from);
        let name = program(cmdline.subrange(from, end));
        if is_competitor(name) {
            Some(name)
        } else if from <= end < cmdline.len() {
            competitor_in(cmdline, end + 1)
        } else {
            None
        }
    }
}

proof fn lemma_null_from(text: Seq<char>, from: int)
    requires
        0 <= from <= text.len(),
    ensures
        from <= null_from(text, from) <= text.len(),
    decreases text.len() - from,
{
    if from < text.len() && text[from] != '\0' {
        lemma_null_from(text, from + 1);
    }
}

/// The well-known program that a process is: by the name the system shows, or else by its command
/// line.
pub open spec fn competitor(comm: Seq<char>, cmdline: Option<Seq<char>>) -> Option<Seq<char>> {
    if is_competitor(trimmed(comm)) {
        Some(trimmed(comm))
    } else {
        match cmdline {
            Some(text) => competitor_in(text, 0),
            None => None,
        }
    }
}

fn search_cmdline(cmdline: &str) -> (name: Option<String>)
    ensures
        match name {
            Some(text) => competitor_in(cmdline@, 0) == Some(text@),
            None => competitor_in(cmdline@, 0) is None,
        },
{
    let chars: Vec<char> = characters(cmdline);
    let mut from: usize = 0;
    loop
        invariant
            chars@ == cmdline@,
            from <= chars.len(),
            competitor_in(cmdline@, 0) == competitor_in(cmdline@, from as int),
        decreases chars.len() - from,
    {
        let mut end: usize = from;
        while end < chars.len() && chars[end] != '\0'
            invariant
                chars@ == cmdline@,
                from <= end <= chars.len(),
                null_from(cmdline@, from as int) == null_from(cmdline@, end as int),
            decreases chars.len() - end,
        {
            end = end + 1;
        }
        let token: &[char] = vstd::slice::slice_subrange(chars.as_slice(), from, end);
        proof {
            assert(token@ =~= cmdline@.subrange(from as int, end as int));
        }
        let name: String = match path_file_name(token) {
            Some(name) => name,
            None => text_of(token),
        };
        if known_competitor(name.as_str()) {
            return Some(name);
        }
        if end == chars.len() {
            return None;
        }
        from = end + 1;
    }
}

/// The well-known program that a process is: by the name the system shows, or else by its command
/// line.
pub fn competitor_name(comm: &str, cmdline: &Option<String>) -> (name: Option<String>)
    ensures
        match name {
            Some(text) => competitor(comm@, crate::text::optional(*cmdline)) == Some(text@),
            None => competitor(comm@, crate::text::optional(*cmdline)) is None,
        },
{
    let shown: String = trim(comm);
    if known_competitor(shown.as_str()) {
        return Some(shown);
    }
    match cmdline {
        Some(text) => search_cmdline(text.as_str()),
        None => None,
    }
}

// ── the processes of the machine ─────────────────────────────────────────────

/// A process as the system lists it: the name of its directory, and the contents of two files.
#[derive(Debug)]
pub struct Process {
    pub directory: String,
    pub comm: Option<String>,
    pub cmdline: Option<String>,
}

/// A process with its texts as sequences of characters.
pub struct ProcessView {
    pub directory: Seq<char>,
    pub comm: Option<Seq<char>>,
    pub cmdline: Option<Seq<char>>,
}

impl View for Process {
    type V = ProcessView;

    open spec fn view(&self) -> ProcessView {
        ProcessView {
            directory: self.directory@,
            comm: crate::text::optional(self.comm),
            cmdline: crate::text::optional(self.cmdline),
        }
    }
}

/// The number of a process whose directory has a given name, if it is not this process.
pub open spec fn other_pid(directory: Seq<char>, own: u32) -> Option<int> {
    if forall|i: int| 0 <= i < directory.len() ==> is_digit(#[trigger] directory[i]) {
        match parsed_number(directory, 0xFFFF_FFFF) {
            Ok(pid) => if pid == own {
                None
            } else {
                Some(pid)
            },
            Err(_) => None,
        }
    } else {
        None
    }
}

/// The number of a process whose directory has a given name, if it is not this process.
pub fn process_id(directory: &str, own: u32) -> (pid: Option<u32>)
    ensures
        match pid {
            Some(n) => other_pid(directory@, own) == Some(n as int),
            None => other_pid(directory@, own) is None,
        },
{
    let chars: Vec<char> = characters(directory);
    let mut i: usize = 0;
    while i < chars.len()
        invariant
            chars@ == directory@,
            i <= chars.len(),
            forall|j: int| 0 <= j < i ==> is_digit(#[trigger] directory@[j]),
        decreases chars.len() - i,
    {
        if !('0' <= chars[i] && chars[i] <= '9') {
            assert(!is_digit(directory@[i as int]));
            return None;
        }
        i = i + 1;
    }
    match parse_number(directory, 0xFFFF_FFFF) {
        Ok(pid) => if pid == own {
            None
        } else {
            Some(pid)
        },
        Err(_) => None,
    }
}

/// How a competing process is shown.
pub open spec fn competitor_label(process: ProcessView, own: u32) -> Option<Seq<char>> {
    match (other_pid(process.directory, own), process.comm) {
        (Some(pid), Some(comm)) => match competitor(comm, process.cmdline) {
            Some(name) => Some(name + " (pid "@ + decimal_text(pid) + ")"@),
            None => None,
        },
        _ => None,
    }
}

fn process_label(process: &Process, own: u32) -> (label: Option<String>)
    ensures
        match label {
            Some(text) => competitor_label(process@, own) == Some(text@),
            None => competitor_label(process@, own) is None,
        },
{
    let pid: u32 = match process_id(process.directory.as_str(), own) {
        Some(pid) => pid,
        None => return None,
    };
    let comm: &String = match &process.comm {
        Some(comm) => comm,
        None => return None,
    };
    match competitor_name(comm.as_str(), &process.cmdline) {
        Some(name) => {
            let mut label: String = name;
            label.append(" (pid ");
            label.append(decimal(pid).as_str());
            label.append(")");
            Some(label)
        },
        None => None,
    }
}

/// Texts in order, none of them twice.
pub open spec fn strictly_ordered(list: Seq<Seq<char>>) -> bool {
    forall|i: int, j: int|
        0 <= i < j < list.len() ==> precedes(#[trigger] list[i], #[trigger] list[j])
}

/// Puts a text into an ordered list, unless it is there already.
fn insert_ordered(list: &mut Vec<String>, label: String)
    requires
        strictly_ordered(texts(old(list)@)),
    ensures
        strictly_ordered(texts(final(list)@)),
        forall|t: Seq<char>| #[trigger]
            texts(final(list)@).contains(t) <==> texts(old(list)@).contains(t) || t == label@,
{
    let ghost before = texts(list@);
    let mut at: usize = 0;
    while at < list.len() && comes_before(list[at].as_str(), label.as_str())
        invariant
            at <= list.len(),
            before == texts(list@),
            forall|i: int| 0 <= i < at ==> precedes(#[trigger] before[i], label@),
        decreases list.len() - at,
    {
        proof {
            assert(before[at as int] == list@[at as int]@);
        }
        at = at + 1;
    }
    if at < list.len() && *list[at].as_str() == *label.as_str() {
        proof {
            assert(before[at as int] == label@);
        }
        return;
    }
    let ghost text = label@;
    list.insert(at, label);
    proof {
        let after = texts(list@);
        assert(after =~= before.insert(at as int, text));
        assert(after[at as int] == text);
        if at < before.len() {
            assert(!precedes(before[at as int], text));
            assert(before[at as int] != text);
        }
        assert forall|i: int| at <= i < before.len() implies precedes(
            text,
            #[trigger] before[i],
        ) by {
            lemma_precedes_total(before[at as int], text);
            if i > at {
                assert(precedes(before[at as int], before[i]));
                lemma_precedes_transitive(text, before[at as int], before[i]);
            }
        }
        assert forall|i: int, j: int| 0 <= i < j < after.len() implies precedes(
            #[trigger] after[i],
            #[trigger] after[j],
        ) by {
            let p = if i < at {
                i
            } else {
                i - 1
            };
            let q = if j < at {
                j
            } else {
                j - 1
            };
            if i != at && j != at {
                assert(after[i] == before[p] && after[j] == before[q]);
            } else if i == at {
                assert(after[j] == before[q]);
            } else {
                assert(after[i] == before[p]);
            }
        }
        assert forall|t: Seq<char>| #[trigger]
            after.contains(t) <==> before.contains(t) || t == text by {
            if before.contains(t) {
                let i = choose|i: int| 0 <= i < before.len() && before[i] == t;
                if i < at {
                    assert(after[i] == t);
                } else {
                    assert(after[i + 1] == t);
                }
            }
            if after.contains(t) && t != text {
                let i = choose|i: int| 0 <= i < after.len() && after[i] == t;
                if i < at {
                    assert(before[i] == t);
                } else {
                    assert(before[i - 1] == t);
                }
            }
        }
    }
}

/// The competing processes among those of the machine, in order.
pub fn competing_gamma_processes(processes: &[Process], own: u32) -> (labels: Vec<String>)
    ensures
        strictly_ordered(texts(labels@)),
        forall|label: Seq<char>| #[trigger]
            texts(labels@).contains(label) <==> exists|i: int|
                0 <= i < processes@.len() && competitor_label((#[trigger] processes@[i])@, own)
                    == Some(label),
{
    let mut labels: Vec<String> = Vec::new();
    let mut n: usize = 0;
    proof {
        assert(texts(labels@) =~= Seq::<Seq<char>>::empty());
    }
    while n < processes.len()
        invariant
            n <= processes.len(),
            strictly_ordered(texts(labels@)),
            forall|label: Seq<char>| #[trigger]
                texts(labels@).contains(label) <==> exists|i: int|
                    0 <= i < n && competitor_label((#[trigger] processes@[i])@, own) == Some(label),
        decreases processes.len() - n,
    {
        let ghost before = texts(labels@);
        let found: Option<String> = process_label(&processes[n], own);
        let ghost seen = crate::text::optional(found);
        if let Some(label) = found {
            insert_ordered(&mut labels, label);
        }
        proof {
            assert(competitor_label(processes@[n as int]@, own) == seen);
            assert forall|label: Seq<char>| #[trigger]
                texts(labels@).contains(label) <==> exists|i: int|
                    0 <= i < n + 1 && competitor_label((#[trigger] processes@[i])@, own) == Some(
                        label,
                    ) by {
                if before.contains(label) {
                    let i = choose|i: int|
                        0 <= i < n && competitor_label((#[trigger] processes@[i])@, own) == Some(
                            label,
                        );
                    assert(competitor_label(processes@[i]@, own) == Some(label));
                }
                if seen == Some(label) {
                    assert(competitor_label(processes@[n as int]@, own) == Some(label));
                }
            }
        }
        n = n + 1;
    }
    labels
}

// ── what the user is told ────────────────────────────────────────────────────

/// A summary of what may keep displays from following the filter.
pub open spec fn conflict_text(
    failed_outputs: Seq<Seq<char>>,
    competitors: Seq<Seq<char>>,
) -> Option<Seq<char>> {
    let running = "another gamma client appears to be running: "@ + joined(competitors, ", "@);
    let unavailable = "gamma control unavailable on: "@ + joined(failed_outputs, ", "@);
    if competitors.len() > 0 && failed_outputs.len() > 0 {
        Some(running + "; "@ + unavailable)
    } else if competitors.len() > 0 {
        Some(running)
    } else if failed_outputs.len() > 0 {
        Some(unavailable)
    } else {
        None
    }
}

/// Says which outputs failed and which other programs run, if any.
pub fn conflict_message(failed_outputs: &[String], competitors: &[String]) -> (message: Option<
    String,
>)
    ensures
        crate::text::optional(message) == conflict_text(
            texts(failed_outputs@),
            texts(competitors@),
        ),
{
    let mut running: String = "another gamma client appears to be running: ".to_owned();
    running.append(join(competitors, ", ").as_str());
    let mut unavailable: String = "gamma control unavailable on: ".to_owned();
    unavailable.append(join(failed_outputs, ", ").as_str());
    if competitors.len() > 0 && failed_outputs.len() > 0 {
        running.append("; ");
        running.append(unavailable.as_str());
        Some(running)
    } else if competitors.len() > 0 {
        Some(running)
    } else if failed_outputs.len() > 0 {
        Some(unavailable)
    } else {
        None
    }
}

// ── what conflicts are ───────────────────────────────────────────────────────

/// The programs that are looked for.
pub proof fn five_programs_are_known(name: Seq<char>)
    ensures
        is_competitor(name) <==> name == "gammastep"@ || name == "gammastep-indicator"@ || name
            == "wlsunset"@ || name == "redshift"@ || name == "redshift-gtk"@,
{
    assert(COMPETITOR_NAMES@[0]@ == "gammastep"@);
    assert(COMPETITOR_NAMES@[1]@ == "gammastep-indicator"@);
    assert(COMPETITOR_NAMES@[2]@ == "wlsunset"@);
    assert(COMPETITOR_NAMES@[3]@ == "redshift"@);
    assert(COMPETITOR_NAMES@[4]@ == "redshift-gtk"@);
}

/// A process counts if the name that the system shows, without white space round it, is that of a
/// known program, and is shown by that name with its number. This process itself never counts, nor
/// does a directory that is not named by a number.
pub proof fn known_programs_are_shown_with_their_number(process: ProcessView, own: u32, pid: u32)
    ensures
        process.directory == decimal_text(pid as int) && pid != own && process.comm is Some
            && is_competitor(trimmed(process.comm->0)) ==> competitor_label(process, own) == Some(
            trimmed(process.comm->0) + " (pid "@ + decimal_text(pid as int) + ")"@,
        ),
        process.directory == decimal_text(own as int) ==> competitor_label(process, own) is None,
        process.comm is None ==> competitor_label(process, own) is None,
        (exists|i: int|
            0 <= i < process.directory.len() && !('0' <= #[trigger] process.directory[i] <= '9'))
            ==> competitor_label(process, own) is None,
        process.cmdline is None && process.comm is Some && !is_competitor(trimmed(process.comm->0))
            ==> competitor_label(process, own) is None,
{
    decimal_reads_back(pid as int, 0xFFFF_FFFF);
    decimal_reads_back(own as int, 0xFFFF_FFFF);
    lemma_all_digits(pid as int);
    lemma_all_digits(own as int);
}

proof fn lemma_all_digits(n: int)
    requires
        0 <= n,
    ensures
        forall|i: int| 0 <= i < decimal_text(n).len() ==> is_digit(#[trigger] decimal_text(n)[i]),
    decreases n,
{
    let text = decimal_text(n);
    if n >= 10 {
        lemma_all_digits(n / 10);
        let front = decimal_text(n / 10);
        assert(text == front.push(crate::text::digit_char(n % 10)));
        assert forall|i: int| 0 <= i < text.len() implies is_digit(#[trigger] text[i]) by {
            if i < front.len() {
                assert(is_digit(front[i]));
            }
        }
    } else {
        assert(text == seq![crate::text::digit_char(n)]);
    }
}

/// A process with another name counts by its command line: by the first argument that names a known
/// program, with or without directories before it.
pub proof fn known_programs_are_found_in_command_lines(
    argument: Seq<char>,
    directories: Seq<char>,
    name: Seq<char>,
    others: Seq<char>,
)
    requires
        forall|i: int| 0 <= i < argument.len() ==> #[trigger] argument[i] != '\0',
        name.len() > 0,
        forall|i: int| 0 <= i < name.len() ==> #[trigger] name[i] != '/',
        name != seq!['.'],
        name != seq!['.', '.'],
    ensures
        program(name) == name,
        program(directories + seq!['/'] + name) == name,
        competitor_in(argument, 0) == (if is_competitor(program(argument)) {
            Some(program(argument))
        } else {
            None
        }),
        competitor_in(argument + seq!['\0'] + others, 0) == (if is_competitor(program(argument)) {
            Some(program(argument))
        } else {
            competitor_in(others, 0)
        }),
{
    lemma_slash_before(name, 0);
    assert(name.skip(0) =~= name);
    let path = directories + seq!['/'] + name;
    lemma_slash_before(path, directories.len() as int + 1);
    assert(path[directories.len() as int] == '/');
    assert(path.skip(directories.len() as int + 1) =~= name);
    assert(path.last() == name.last());
    lemma_null_free(argument, 0);
    assert(argument.subrange(0, argument.len() as int) =~= argument);
    let line = argument + seq!['\0'] + others;
    let at = argument.len() as int;
    lemma_null_at(line, 0, at);
    assert(line.subrange(0, at) =~= argument);
    assert(line =~= (argument + seq!['\0']) + others);
    lemma_search_behind(argument + seq!['\0'], others, 0);
}

proof fn lemma_slash_before(path: Seq<char>, from: int)
    requires
        0 <= from <= path.len(),
        forall|i: int| from <= i < path.len() ==> #[trigger] path[i] != '/',
        from > 0 ==> path[from - 1] == '/',
    ensures
        last_slash(path) == from - 1,
    decreases path.len(),
{
    if path.len() > from {
        let shorter = path.drop_last();
        assert forall|i: int| from <= i < shorter.len() implies #[trigger] shorter[i] != '/' by {
            assert(shorter[i] == path[i]);
        }
        lemma_slash_before(shorter, from);
    }
}

proof fn lemma_null_free(text: Seq<char>, from: int)
    requires
        0 <= from <= text.len(),
        forall|i: int| 0 <= i < text.len() ==> #[trigger] text[i] != '\0',
    ensures
        null_from(text, from) == text.len(),
    decreases text.len() - from,
{
    if from < text.len() {
        lemma_null_free(text, from + 1);
    }
}

proof fn lemma_null_at(text: Seq<char>, from: int, at: int)
    requires
        0 <= from <= at < text.len(),
        text[at] == '\0',
        forall|i: int| from <= i < at ==> #[trigger] text[i] != '\0',
    ensures
        null_from(text, from) == at,
    decreases at - from,
{
    if from < at {
        lemma_null_at(text, from + 1, at);
    }
}

proof fn lemma_null_behind(front: Seq<char>, text: Seq<char>, from: int)
    requires
        0 <= from <= text.len(),
    ensures
        null_from(front + text, front.len() + from) == front.len() + null_from(text, from),
    decreases text.len() - from,
{
    if from < text.len() {
        assert((front + text)[front.len() + from] == text[from]);
        if text[from] != '\0' {
            lemma_null_behind(front, text, from + 1);
        }
    }
}

proof fn lemma_search_behind(front: Seq<char>, text: Seq<char>, from: int)
    requires
        0 <= from <= text.len(),
    ensures
        competitor_in(front + text, front.len() + from) == competitor_in(text, from),
    decreases text.len() - from,
{
    let line = front + text;
    let at = front.len() + from;
    lemma_null_behind(front, text, from);
    lemma_null_from(text, from);
    let end = null_from(text, from);
    assert(line.subrange(at, front.len() + end) =~= text.subrange(from, end));
    if !is_competitor(program(text.subrange(from, end))) && end < text.len() {
        lemma_search_behind(front, text, end + 1);
    }
}

/// There is something to tell exactly if another program runs or an output failed, and it tells of
/// all of these.
pub proof fn conflicts_are_told(failed: Seq<Seq<char>>, competitors: Seq<Seq<char>>)
    ensures
        conflict_text(failed, competitors) is None <==> failed.len() == 0 && competitors.len() == 0,
        competitors.len() > 0 && failed.len() == 0 ==> conflict_text(failed, competitors) == Some(
            "another gamma client appears to be running: "@ + joined(competitors, ", "@),
        ),
        failed.len() > 0 && competitors.len() == 0 ==> conflict_text(failed, competitors) == Some(
            "gamma control unavailable on: "@ + joined(failed, ", "@),
        ),
        failed.len() > 0 && competitors.len() > 0 ==> conflict_text(failed, competitors) == Some(
            conflict_text(Seq::empty(), competitors)->0 + "; "@ + conflict_text(
                failed,
                Seq::empty(),
            )->0,
        ),
{
}

/// The command line counts only where the name that the system shows is not that of a known program.
pub proof fn shown_names_come_before_command_lines(comm: Seq<char>, cmdline: Option<Seq<char>>)
    ensures
        is_competitor(trimmed(comm)) ==> competitor(comm, cmdline) == Some(trimmed(comm)),
        !is_competitor(trimmed(comm)) ==> competitor(comm, cmdline) == (match cmdline {
            Some(line) => competitor_in(line, 0),
            None => None,
        }),
{
}

/// In an ordered list of texts every text comes before those behind it, and none stands twice.
pub proof fn ordered_texts_differ(list: Seq<Seq<char>>, i: int, j: int)
    requires
        strictly_ordered(list),
        0 <= i < j < list.len(),
    ensures
        precedes(list[i], list[j]),
        list[i] != list[j],
{
    lemma_precedes_irreflexive(list[i]);
}

}
