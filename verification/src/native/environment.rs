use vstd::prelude::*;
use vstd::string::StringExecFns;
use crate::text::{chars_of, same_text, string_from, string_of, texts_view};

verus! {

/// One assignment of the environment: a name and the parts of its value.
#[derive(Debug, Clone, PartialEq, Eq)]
pub struct Assignment {
    pub name: String,
    pub values: Vec<String>,
}

/// The mathematical value of an assignment.
pub struct AssignmentView {
    pub name: Seq<char>,
    pub values: Seq<Seq<char>>,
}

impl View for Assignment {
    type V = AssignmentView;

    open spec fn view(&self) -> AssignmentView {
        AssignmentView { name: self.name@, values: texts_view(self.values@) }
    }
}

/// A place where an executable may be: a directory and a file name in it.
#[derive(Debug, Clone, PartialEq, Eq)]
pub struct Candidate {
    pub directory: String,
    pub file: String,
}

/// The mathematical value of a candidate.
pub struct CandidateView {
    pub directory: Seq<char>,
    pub file: Seq<char>,
}

impl View for Candidate {
    type V = CandidateView;

    open spec fn view(&self) -> CandidateView {
        CandidateView { directory: self.directory@, file: self.file@ }
    }
}

/// The values of a list of assignments.
pub open spec fn assignments_view(entries: Seq<Assignment>) -> Seq<AssignmentView> {
    entries.map_values(|a: Assignment| a@)
}

/// The values of a list of candidates.
pub open spec fn candidates_view(candidates: Seq<Candidate>) -> Seq<CandidateView> {
    candidates.map_values(|c: Candidate| c@)
}

/// The index of the first `c` in `s`, or the length of `s`.
pub open spec fn index_of(s: Seq<char>, c: char) -> int
    decreases s.len(),
{
    if s.len() == 0 || s[0] == c {
        0
    } else {
        1 + index_of(s.drop_first(), c)
    }
}

/// The pieces of `s` between the occurrences of `sep`. There is one piece
/// more than there are separators: the empty text is one empty piece.
pub open spec fn split(s: Seq<char>, sep: char) -> Seq<Seq<char>>
    decreases s.len(),
{
    let i = index_of(s, sep);
    if i < 0 || i >= s.len() {
        seq![s]
    } else {
        seq![s.take(i)] + split(s.skip(i + 1), sep)
    }
}

/// What a line of the environment assigns: the name before its first `=`
/// and, behind it, the value split at each `;`. A line without `=` assigns
/// nothing.
pub open spec fn assignment(line: Seq<char>) -> Option<AssignmentView> {
    let eq = index_of(line, '=');
    if eq < 0 || eq >= line.len() {
        None
    } else {
        Some(AssignmentView { name: line.take(eq), values: split(line.skip(eq + 1), ';') })
    }
}

/// The assignments that the lines make, in the order of the lines.
pub open spec fn assignments(lines: Seq<Seq<char>>) -> Seq<AssignmentView>
    decreases lines.len(),
{
    if lines.len() == 0 {
        Seq::empty()
    } else {
        match assignment(lines.last()) {
            Some(a) => assignments(lines.drop_last()).push(a),
            None => assignments(lines.drop_last()),
        }
    }
}

/// The value that the assignments give to `name`: that of the last one
/// that names it.
pub open spec fn assigned(entries: Seq<AssignmentView>, name: Seq<char>) -> Option<Seq<Seq<char>>>
    decreases entries.len(),
{
    if entries.len() == 0 {
        None
    } else if entries.last().name == name {
        Some(entries.last().values)
    } else {
        assigned(entries.drop_last(), name)
    }
}

/// The extensions that are tried where the environment names none.
pub open spec fn default_extensions() -> Seq<Seq<char>> {
    seq![seq!['e', 'x', 'e'], seq!['b', 'a', 't'], seq!['c', 'm', 'd']]
}

/// The name of the variable that lists the extensions of executables.
pub open spec fn extensions_name() -> Seq<char> {
    seq!['P', 'A', 'T', 'H', 'E', 'X', 'T']
}

/// The name of the variable that lists the directories of executables.
pub open spec fn path_name() -> Seq<char> {
    seq!['P', 'a', 't', 'h']
}

/// The file names `stem` + `joint` + extension, one for each extension.
pub open spec fn files(stem: Seq<char>, joint: Seq<char>, extensions: Seq<Seq<char>>) -> Seq<
    Seq<char>,
> {
    extensions.map_values(|ext: Seq<char>| stem + joint + ext)
}

/// The candidates in one directory: one for each file name.
pub open spec fn in_directory(directory: Seq<char>, names: Seq<Seq<char>>) -> Seq<CandidateView> {
    names.map_values(|file: Seq<char>| CandidateView { directory, file })
}

/// The candidates in each of the directories from the `i`-th on, directory
/// by directory.
pub open spec fn in_directories(directories: Seq<Seq<char>>, i: int, names: Seq<Seq<char>>) -> Seq<
    CandidateView,
>
    decreases directories.len() - i,
{
    if i < 0 || i >= directories.len() {
        Seq::empty()
    } else {
        in_directory(directories[i], names) + in_directories(directories, i + 1, names)
    }
}

/// Where the executable `name` is looked for, in this order: in the
/// working directory under `name.ext` for each extension, then in each
/// directory of `Path` under `name` directly followed by each extension.
/// The extensions are those of `PATHEXT`, or `exe`, `bat` and `cmd`.
pub open spec fn places(
    entries: Seq<AssignmentView>,
    directory: Seq<char>,
    name: Seq<char>,
) -> Seq<CandidateView> {
    let extensions = match assigned(entries, extensions_name()) {
        Some(e) => e,
        None => default_extensions(),
    };
    let here = in_directory(directory, files(name, seq!['.'], extensions));
    match assigned(entries, path_name()) {
        Some(directories) => here + in_directories(
            directories,
            0,
            files(name, Seq::empty(), extensions),
        ),
        None => here,
    }
}

/// How a command is run.
#[derive(Debug, Clone, PartialEq, Eq)]
pub enum Resolution {
    /// It is the shell's own command with this index in `cmds`.
    Builtin(usize),
    /// It is the executable at this place.
    Executable(Candidate),
    /// Nothing of that name is known.
    Unknown,
}

/// The mathematical value of a resolution.
pub enum ResolutionView {
    Builtin(int),
    Executable(CandidateView),
    Unknown,
}

impl View for Resolution {
    type V = ResolutionView;

    open spec fn view(&self) -> ResolutionView {
        match self {
            Resolution::Builtin(i) => ResolutionView::Builtin(*i as int),
            Resolution::Executable(c) => ResolutionView::Executable(c@),
            Resolution::Unknown => ResolutionView::Unknown,
        }
    }
}

/// The index of the first text equal to `name`, or the length of `texts`.
pub open spec fn index_of_text(texts: Seq<Seq<char>>, name: Seq<char>) -> int
    decreases texts.len(),
{
    if texts.len() == 0 || texts[0] == name {
        0
    } else {
        1 + index_of_text(texts.drop_first(), name)
    }
}

/// How the command `name` is run: as the first of the shell's own
/// commands of that name; where there is none, as the first of its
/// places at which there is a file; else not at all.
pub open spec fn resolved(
    cmds: Seq<Seq<char>>,
    all: Seq<CandidateView>,
    present: Seq<bool>,
    name: Seq<char>,
) -> ResolutionView {
    let own = index_of_text(cmds, name);
    let first = first_true(present);
    if own < cmds.len() {
        ResolutionView::Builtin(own)
    } else if first < present.len() && first < all.len() {
        ResolutionView::Executable(all[first])
    } else {
        ResolutionView::Unknown
    }
}

/// The index of a text lies within the list or at its end.
pub proof fn lemma_index_of_text_bounds(texts: Seq<Seq<char>>, name: Seq<char>)
    ensures
        0 <= index_of_text(texts, name) <= texts.len(),
    decreases texts.len(),
{
    if texts.len() == 0 || texts[0] == name {
    } else {
        lemma_index_of_text_bounds(texts.drop_first(), name);
    }
}

/// The index of the first `true` in `flags`, or the length of `flags`.
pub open spec fn first_true(flags: Seq<bool>) -> int
    decreases flags.len(),
{
    if flags.len() == 0 || flags[0] {
        0
    } else {
        1 + first_true(flags.drop_first())
    }
}

/// The index of a character lies within the text or at its end.
pub proof fn lemma_index_of_bounds(s: Seq<char>, c: char)
    ensures
        0 <= index_of(s, c) <= s.len(),
    decreases s.len(),
{
    if s.len() == 0 || s[0] == c {
    } else {
        lemma_index_of_bounds(s.drop_first(), c);
    }
}

/// The first `true` lies within the flags or at their end, and no flag
/// before it is `true`.
pub proof fn lemma_first_true_bounds(flags: Seq<bool>)
    ensures
        0 <= first_true(flags) <= flags.len(),
        first_true(flags) < flags.len() ==> flags[first_true(flags)],
        forall|i: int| 0 <= i < first_true(flags) ==> !#[trigger] flags[i],
    decreases flags.len(),
{
    if flags.len() == 0 || flags[0] {
    } else {
        lemma_first_true_bounds(flags.drop_first());
        assert forall|i: int| 0 <= i < first_true(flags) implies !#[trigger] flags[i] by {
            if i > 0 {
                assert(flags[i] == flags.drop_first()[i - 1]);
            }
        }
    }
}

/// The variables of the process, the working directory, and the names of
/// the commands that the shell provides itself.
#[derive(Debug, Clone, PartialEq, Eq)]
pub struct Environment {
    pub inner: Vec<Assignment>,
    pub directory: String,
    pub cmds: Vec<String>,
}

/// The first index of `c` in `chars` at or after `from`.
pub fn find_char(chars: &Vec<char>, from: usize, c: char) -> (r: usize)
    requires
        from <= chars.len(),
    ensures
        from <= r <= chars.len(),
        r == from + index_of(chars@.skip(from as int), c),
{
    let mut i: usize = from;
    proof {
        lemma_index_of_bounds(chars@.skip(from as int), c);
    }
    while i < chars.len() && chars[i] != c
        invariant
            from <= i <= chars.len(),
            from + index_of(chars@.skip(from as int), c) == i + index_of(chars@.skip(i as int), c),
        decreases chars.len() - i,
    {
        proof {
            assert(chars@.skip(i as int)[0] == chars@[i as int]);
            assert(chars@.skip(i as int).drop_first() == chars@.skip(i + 1));
            lemma_index_of_bounds(chars@.skip(i + 1), c);
        }
        i += 1;
    }
    proof {
        if i < chars.len() {
            assert(chars@.skip(i as int)[0] == chars@[i as int]);
        }
    }
    i
}

/// The pieces of `chars[from..]` between the occurrences of `sep`.
pub fn split_from(chars: &Vec<char>, from: usize, sep: char) -> (r: Vec<String>)
    requires
        from <= chars.len(),
    ensures
        texts_view(r@) == split(chars@.skip(from as int), sep),
{
    let mut out: Vec<String> = Vec::new();
    let mut start: usize = from;
    let ghost whole = split(chars@.skip(from as int), sep);
    proof {
        assert(texts_view(out@) == Seq::<Seq<char>>::empty());
        assert(Seq::<Seq<char>>::empty() + whole == whole);
    }
    loop
        invariant_except_break
            from <= start <= chars.len(),
            whole == texts_view(out@) + split(chars@.skip(start as int), sep),
        ensures
            whole == texts_view(out@),
        decreases chars.len() - start,
    {
        let ghost done = texts_view(out@);
        let ghost rest = chars@.skip(start as int);
        let end = find_char(chars, start, sep);
        let piece = string_of(chars, start, end);
        proof {
            assert(chars@.subrange(start as int, end as int) == rest.take(end - start));
            assert(texts_view(out@.push(piece)) == done.push(piece@));
        }
        out.push(piece);
        if end >= chars.len() {
            proof {
                assert(rest.take(rest.len() as int) == rest);
                assert(done + seq![rest] == done.push(rest));
            }
            break ;
        }
        proof {
            assert(rest.skip(end - start + 1) == chars@.skip(end + 1));
            assert(done + (seq![piece@] + split(chars@.skip(end + 1), sep)) == done.push(piece@)
                + split(chars@.skip(end + 1), sep));
        }
        start = end + 1;
    }
    out
}

/// Reads what a line of the environment assigns.
pub fn parse_assignment(line: &str) -> (r: Option<Assignment>)
    ensures
        match r {
            Some(a) => assignment(line@) == Some(a@),
            None => assignment(line@) is None,
        },
{
    let chars = chars_of(line);
    proof {
        assert(chars@.skip(0) == chars@);
    }
    let eq = find_char(&chars, 0, '=');
    if eq >= chars.len() {
        return None;
    }
    let name = string_of(&chars, 0, eq);
    let values = split_from(&chars, eq + 1, ';');
    proof {
        assert(chars@.subrange(0, eq as int) == chars@.take(eq as int));
    }
    Some(Assignment { name, values })
}

impl Environment {
    /// The environment with the given assignments and working directory.
    pub fn new(inner: Vec<Assignment>, directory: String) -> (r: Self)
        ensures
            r.inner == inner,
            r.directory == directory,
            r.cmds@.len() == 0,
    {
        Self { inner, directory, cmds: Vec::new() }
    }

    /// Reads the environment from lines of the form `NAME=part;part`.
    pub fn from(value: Vec<String>, directory: String) -> (r: Self)
        ensures
            assignments_view(r.inner@) == assignments(texts_view(value@)),
            r.directory == directory,
            r.cmds@.len() == 0,
    {
        let ghost lines = texts_view(value@);
        let mut entries: Vec<Assignment> = Vec::new();
        let mut i: usize = 0;
        proof {
            assert(assignments_view(entries@) == Seq::<AssignmentView>::empty());
            assert(lines.take(0) == Seq::<Seq<char>>::empty());
        }
        while i < value.len()
            invariant
                0 <= i <= value.len(),
                lines == texts_view(value@),
                assignments_view(entries@) == assignments(lines.take(i as int)),
            decreases value.len() - i,
        {
            let ghost done = assignments_view(entries@);
            proof {
                assert(lines.take(i + 1).drop_last() == lines.take(i as int));
                assert(lines.take(i + 1).last() == value@[i as int]@);
            }
            match parse_assignment(value[i].as_str()) {
                Some(a) => {
                    proof {
                        assert(assignments_view(entries@.push(a)) == done.push(a@));
                    }
                    entries.push(a);
                },
                None => {},
            }
            i += 1;
        }
        proof {
            assert(lines.take(value.len() as int) == lines);
        }
        Self::new(entries, directory)
    }

    /// The value of the variable `name`: the parts that its last assignment gave it.
    pub fn var(&self, name: String) -> (r: Option<&Vec<String>>)
        ensures
            match r {
                Some(values) => assigned(assignments_view(self.inner@), name@) == Some(
                    texts_view(values@),
                ),
                None => assigned(assignments_view(self.inner@), name@) is None,
            },
    {
        let ghost entries = assignments_view(self.inner@);
        let mut i: usize = self.inner.len();
        proof {
            assert(entries.take(i as int) == entries);
        }
        while i > 0
            invariant
                0 <= i <= self.inner.len(),
                entries == assignments_view(self.inner@),
                assigned(entries, name@) == assigned(entries.take(i as int), name@),
            decreases i,
        {
            i -= 1;
            proof {
                assert(entries.take(i + 1).last() == self.inner@[i as int]@);
                assert(entries.take(i + 1).drop_last() == entries.take(i as int));
            }
            if same_text(&self.inner[i].name, &name) {
                return Some(&self.inner[i].values);
            }
        }
        None
    }

    /// The places where the executable `name` is looked for, in order.
    pub fn candidates(&self, name: &String) -> (r: Vec<Candidate>)
        ensures
            candidates_view(r@) == places(assignments_view(self.inner@), self.directory@, name@),
    {
        let ghost entries = assignments_view(self.inner@);
        let fallback: Vec<String> = vec![
            string_from(&vec!['e', 'x', 'e']),
            string_from(&vec!['b', 'a', 't']),
            string_from(&vec!['c', 'm', 'd']),
        ];
        proof {
            assert(texts_view(fallback@) == default_extensions());
        }
        let pathext = string_from(&vec!['P', 'A', 'T', 'H', 'E', 'X', 'T']);
        let path = string_from(&vec!['P', 'a', 't', 'h']);
        proof {
            assert(pathext@ == extensions_name());
            assert(path@ == path_name());
        }
        let extensions: &Vec<String> = match self.var(pathext) {
            Some(e) => e,
            None => &fallback,
        };
        let ghost exts = texts_view(extensions@);
        let mut out: Vec<Candidate> = Vec::new();
        let dotted = Self::file_names(name, true, extensions);
        Self::add_directory(&mut out, &self.directory, &dotted);
        let ghost here = candidates_view(out@);
        proof {
            assert(Seq::<CandidateView>::empty() + in_directory(
                self.directory@,
                files(name@, seq!['.'], exts),
            ) == in_directory(self.directory@, files(name@, seq!['.'], exts)));
        }
        match self.var(path) {
            None => {},
            Some(directories) => {
                let plain = Self::file_names(name, false, extensions);
                let ghost dirs = texts_view(directories@);
                let ghost names = texts_view(plain@);
                let mut i: usize = 0;
                proof {
                    assert(here + in_directories(dirs, 0, names) == here + in_directories(
                        dirs,
                        0,
                        names,
                    ));
                }
                while i < directories.len()
                    invariant
                        0 <= i <= directories.len(),
                        dirs == texts_view(directories@),
                        names == texts_view(plain@),
                        here + in_directories(dirs, 0, names) == candidates_view(out@)
                            + in_directories(dirs, i as int, names),
                    decreases directories.len() - i,
                {
                    let ghost done = candidates_view(out@);
                    Self::add_directory(&mut out, &directories[i], &plain);
                    proof {
                        assert(dirs[i as int] == directories@[i as int]@);
                        assert(done + (in_directory(dirs[i as int], names) + in_directories(
                            dirs,
                            i + 1,
                            names,
                        )) == (done + in_directory(dirs[i as int], names)) + in_directories(
                            dirs,
                            i + 1,
                            names,
                        ));
                    }
                    i += 1;
                }
                proof {
                    assert(candidates_view(out@) + Seq::<CandidateView>::empty()
                        == candidates_view(out@));
                }
            },
        }
        out
    }

    /// The file names `name.ext`, or `nameext` without the dot, one for each extension.
    pub fn file_names(name: &String, dotted: bool, extensions: &Vec<String>) -> (r: Vec<String>)
        ensures
            texts_view(r@) == files(
                name@,
                if dotted {
                    seq!['.']
                } else {
                    Seq::empty()
                },
                texts_view(extensions@),
            ),
    {
        let ghost joint = if dotted {
            seq!['.']
        } else {
            Seq::<char>::empty()
        };
        let ghost wanted = files(name@, joint, texts_view(extensions@));
        let mut out: Vec<String> = Vec::new();
        let mut i: usize = 0;
        proof {
            assert(texts_view(out@) == wanted.take(0));
        }
        while i < extensions.len()
            invariant
                0 <= i <= extensions.len(),
                wanted == files(name@, joint, texts_view(extensions@)),
                joint == if dotted {
                    seq!['.']
                } else {
                    Seq::<char>::empty()
                },
                texts_view(out@) == wanted.take(i as int),
            decreases extensions.len() - i,
        {
            let ghost done = texts_view(out@);
            let mut file = name.clone();
            if dotted {
                file.push('.');
                proof {
                    assert(name@.push('.') == name@ + seq!['.']);
                }
            } else {
                proof {
                    assert(name@ + Seq::<char>::empty() == name@);
                }
            }
            file.append(extensions[i].as_str());
            proof {
                assert(file@ == name@ + joint + extensions@[i as int]@);
                assert(texts_view(out@.push(file)) == done.push(file@));
                assert(wanted.take(i + 1) == wanted.take(i as int).push(file@));
            }
            out.push(file);
            i += 1;
        }
        proof {
            assert(wanted.take(extensions.len() as int) == wanted);
        }
        out
    }

    /// Puts one candidate in `directory` for each file name behind those in `out`.
    pub fn add_directory(out: &mut Vec<Candidate>, directory: &String, names: &Vec<String>)
        ensures
            candidates_view(final(out)@) == candidates_view(old(out)@) + in_directory(
                directory@,
                texts_view(names@),
            ),
    {
        let ghost before = candidates_view(out@);
        let ghost wanted = in_directory(directory@, texts_view(names@));
        let mut i: usize = 0;
        proof {
            assert(before + wanted.take(0) == before);
        }
        while i < names.len()
            invariant
                0 <= i <= names.len(),
                wanted == in_directory(directory@, texts_view(names@)),
                candidates_view(out@) == before + wanted.take(i as int),
            decreases names.len() - i,
        {
            let ghost done = candidates_view(out@);
            let c = Candidate { directory: directory.clone(), file: names[i].clone() };
            proof {
                assert(candidates_view(out@.push(c)) == done.push(c@));
                assert(wanted.take(i + 1) == wanted.take(i as int).push(c@));
                assert((before + wanted.take(i as int)).push(c@) == before + wanted.take(
                    i as int,
                ).push(c@));
            }
            out.push(c);
            i += 1;
        }
        proof {
            assert(wanted.take(names.len() as int) == wanted);
        }
    }

    /// Finds the executable `name`: the first of the places where it is
    /// looked for at which there is a file. `present` tells for each place,
    /// in order, whether there is one; a place that it does not reach has none.
    pub fn find_executable(&self, name: String, present: &Vec<bool>) -> (r: Option<Candidate>)
        ensures
            ({
                let all = places(assignments_view(self.inner@), self.directory@, name@);
                let first = first_true(present@);
                match r {
                    Some(c) => first < present@.len() && first < all.len() && c@ == all[first],
                    None => first >= present@.len() || first >= all.len(),
                }
            }),
    {
        let mut all = self.candidates(&name);
        let ghost places = candidates_view(all@);
        let mut i: usize = 0;
        proof {
            lemma_first_true_bounds(present@);
            assert(present@.skip(0) == present@);
        }
        while i < present.len() && !present[i]
            invariant
                0 <= i <= present.len(),
                first_true(present@) == i + first_true(present@.skip(i as int)),
            decreases present.len() - i,
        {
            proof {
                assert(present@.skip(i as int)[0] == present@[i as int]);
                assert(present@.skip(i as int).drop_first() == present@.skip(i + 1));
                lemma_first_true_bounds(present@.skip(i + 1));
            }
            i += 1;
        }
        proof {
            if i < present.len() {
                assert(present@.skip(i as int)[0] == present@[i as int]);
            }
        }
        if i < present.len() && i < all.len() {
            let found = all.swap_remove(i);
            proof {
                assert(found@ == places[i as int]);
            }
            Some(found)
        } else {
            None
        }
    }
}

impl Environment {
    /// The index of `name` among the shell's own commands, if it is one.
    pub fn builtin(&self, name: &String) -> (r: Option<usize>)
        ensures
            match r {
                Some(i) => i == index_of_text(texts_view(self.cmds@), name@) && i < self.cmds.len(),
                None => index_of_text(texts_view(self.cmds@), name@) >= self.cmds.len(),
            },
    {
        let ghost texts = texts_view(self.cmds@);
        let mut i: usize = 0;
        proof {
            assert(texts.skip(0) == texts);
            lemma_index_of_text_bounds(texts, name@);
        }
        while i < self.cmds.len()
            invariant
                0 <= i <= self.cmds.len(),
                texts == texts_view(self.cmds@),
                index_of_text(texts, name@) == i + index_of_text(texts.skip(i as int), name@),
            decreases self.cmds.len() - i,
        {
            proof {
                assert(texts.skip(i as int)[0] == self.cmds@[i as int]@);
                assert(texts.skip(i as int).drop_first() == texts.skip(i + 1));
                lemma_index_of_text_bounds(texts.skip(i + 1), name@);
            }
            if same_text(&self.cmds[i], name) {
                return Some(i);
            }
            i += 1;
        }
        None
    }

    /// Tells how the command `name` is run. `present` tells for each place
    /// where the executable is looked for, in order, whether there is a
    /// file; it is not read for a command of the shell itself.
    pub fn resolve(&self, name: &String, present: &Vec<bool>) -> (r: Resolution)
        ensures
            r@ == resolved(
                texts_view(self.cmds@),
                places(assignments_view(self.inner@), self.directory@, name@),
                present@,
                name@,
            ),
    {
        match self.builtin(name) {
            Some(i) => Resolution::Builtin(i),
            None => match self.find_executable(name.clone(), present) {
                Some(c) => Resolution::Executable(c),
                None => Resolution::Unknown,
            },
        }
    }
}

/// Reads the environment of the process from its lines, which the caller
/// has got from the system together with the working directory.
pub fn get_environment(lines: Vec<String>, directory: String) -> (r: Environment)
    ensures
        assignments_view(r.inner@) == assignments(texts_view(lines@)),
        r.directory == directory,
        r.cmds@.len() == 0,
{
    Environment::from(lines, directory)
}

} // verus!
