//! The registry of skill commands: Markdown documents, one per command, that
//! can be injected into an agent turn.
use vstd::prelude::*;

use crate::text::{ascii_lower, chars_of, contains, contains_chars, lemma_lex_total, lemma_lex_transitive, last_match, lex_less, lex_lt, lower_chars, rfind_chars, seq_eq, slice_chars, string_of, str_eq, trim, trim_str, views, string_views, char_count};

verus! {

broadcast use vstd::string::group_string_axioms;

/// A file found in the commands directory: its name and its text.
#[derive(Debug, Clone)]
pub struct CommandFile {
    pub file_name: String,
    pub body: String,
}

#[derive(Debug, Clone)]
struct SkillDoc {
    name: String,
    body: String,
}

/// The command a file defines: a `.md` file defines the command named by its
/// stem (a leading dot does not start an extension).
pub open spec fn command_name_of(file_name: Seq<char>) -> Option<Seq<char>> {
    let p = last_match(file_name, "."@);
    if p > 0 && file_name.skip(p + 1) == "md"@ {
        Some(file_name.take(p))
    } else {
        None
    }
}

/// Entries, as (name, body), strictly ordered by name.
pub open spec fn sorted_entries(e: Seq<(Seq<char>, Seq<char>)>) -> bool {
    forall|i: int, j: int| 0 <= i < j < e.len() ==> lex_lt(#[trigger] e[i].0, #[trigger] e[j].0)
}

/// The first index at or after `i` whose name does not sort before `key`.
pub open spec fn first_not_below(e: Seq<(Seq<char>, Seq<char>)>, key: Seq<char>, i: int) -> int
    decreases e.len() - i,
{
    if i < 0 || i >= e.len() {
        e.len() as int
    } else if !lex_lt(e[i].0, key) {
        i
    } else {
        first_not_below(e, key, i + 1)
    }
}

/// `e` with `(key, body)` added in name order, replacing an entry of the same
/// name.
pub open spec fn insert_entry(e: Seq<(Seq<char>, Seq<char>)>, key: Seq<char>, body: Seq<char>) -> Seq<(Seq<char>, Seq<char>)> {
    let k = first_not_below(e, key, 0);
    if k < e.len() && e[k].0 == key {
        e.update(k, (key, body))
    } else {
        e.insert(k, (key, body))
    }
}

/// The registry built from the files, in order: each command file adds or
/// replaces its command.
pub open spec fn load_entries(files: Seq<(Seq<char>, Seq<char>)>) -> Seq<(Seq<char>, Seq<char>)>
    decreases files.len(),
{
    if files.len() == 0 {
        seq![]
    } else {
        let prev = load_entries(files.drop_last());
        match command_name_of(files.last().0) {
            Some(n) => insert_entry(prev, n, files.last().1),
            None => prev,
        }
    }
}

/// The names of the entries, in order.
pub open spec fn entry_names(e: Seq<(Seq<char>, Seq<char>)>) -> Seq<Seq<char>> {
    e.map_values(|x: (Seq<char>, Seq<char>)| x.0)
}

proof fn lemma_first_not_below(e: Seq<(Seq<char>, Seq<char>)>, key: Seq<char>, i: int)
    requires
        0 <= i <= e.len(),
        sorted_entries(e),
    ensures
        i <= first_not_below(e, key, i) <= e.len(),
        forall|j: int| i <= j < first_not_below(e, key, i) ==> lex_lt(#[trigger] e[j].0, key),
        forall|j: int| first_not_below(e, key, i) <= j < e.len() ==> !lex_lt(#[trigger] e[j].0, key),
    decreases e.len() - i,
{
    if i < e.len() {
        if !lex_lt(e[i].0, key) {
            assert forall|j: int| i <= j < e.len() implies !lex_lt(#[trigger] e[j].0, key) by {
                if j > i && lex_lt(e[j].0, key) {
                    lemma_lex_transitive(e[i].0, e[j].0, key);
                }
            }
        } else {
            lemma_first_not_below(e, key, i + 1);
        }
    }
}

proof fn lemma_insert_entry_sorted(e: Seq<(Seq<char>, Seq<char>)>, key: Seq<char>, body: Seq<char>)
    requires
        sorted_entries(e),
    ensures
        sorted_entries(insert_entry(e, key, body)),
{
    lemma_first_not_below(e, key, 0);
    let k = first_not_below(e, key, 0);
    let n = insert_entry(e, key, body);
    if k < e.len() && e[k].0 == key {
        assert forall|i: int, j: int| 0 <= i < j < n.len() implies lex_lt(#[trigger] n[i].0, #[trigger] n[j].0) by {
            assert(n[i].0 == e[i].0);
            assert(n[j].0 == e[j].0);
        }
    } else {
        if k < e.len() {
            lemma_lex_total(e[k].0, key);
        }
        assert forall|i: int, j: int| 0 <= i < j < n.len() implies lex_lt(#[trigger] n[i].0, #[trigger] n[j].0) by {
            if j < k {
                assert(n[i] == e[i] && n[j] == e[j]);
            } else if j == k {
                assert(n[i] == e[i]);
            } else if i == k {
                assert(n[j] == e[j - 1]);
                if j - 1 > k {
                    lemma_lex_transitive(key, e[k].0, e[j - 1].0);
                }
            } else if i < k {
                assert(n[i] == e[i]);
                assert(n[j] == e[j - 1]);
                if j - 1 >= k {
                    if j - 1 > k {
                        lemma_lex_transitive(key, e[k].0, e[j - 1].0);
                    }
                    lemma_lex_transitive(e[i].0, key, e[j - 1].0);
                }
            } else {
                assert(n[i] == e[i - 1] && n[j] == e[j - 1]);
            }
        }
    }
}

proof fn lemma_load_entries_sorted(files: Seq<(Seq<char>, Seq<char>)>)
    ensures
        sorted_entries(load_entries(files)),
    decreases files.len(),
{
    if files.len() > 0 {
        lemma_load_entries_sorted(files.drop_last());
        match command_name_of(files.last().0) {
            Some(n) => lemma_insert_entry_sorted(load_entries(files.drop_last()), n, files.last().1),
            None => {},
        }
    }
}

/// Skill commands by name, in name order.
#[derive(Debug, Clone)]
pub struct SkillRegistry {
    commands: Vec<SkillDoc>,
}

impl View for SkillRegistry {
    type V = Seq<(Seq<char>, Seq<char>)>;

    closed spec fn view(&self) -> Seq<(Seq<char>, Seq<char>)> {
        self.commands@.map_values(|d: SkillDoc| (d.name@, d.body@))
    }
}

/// The file views of a list of command files.
pub open spec fn file_views(files: Seq<CommandFile>) -> Seq<(Seq<char>, Seq<char>)> {
    files.map_values(|f: CommandFile| (f.file_name@, f.body@))
}

/// The command file's name, if it is a command file.
pub fn command_name_of_file(file_name: &str) -> (r: Option<String>)
    ensures
        match command_name_of(file_name@) {
            Some(n) => r is Some && r->0@ == n,
            None => r is None,
        },
{
    let v = chars_of(file_name);
    let vlen = v.len();
    let dot = chars_of(".");
    match rfind_chars(&v, &dot) {
        Some(p) => {
            proof {
                reveal_strlit(".");
                crate::text::lemma_last_match(v@, dot@);
            }
            if p == 0 {
                return None;
            }
            let ext = slice_chars(&v, p + 1, vlen);
            let md = chars_of("md");
            proof {
                assert(ext@ =~= v@.skip(p + 1));
            }
            if seq_eq(&ext, &md) {
                let stem = slice_chars(&v, 0, p);
                proof {
                    assert(stem@ =~= v@.take(p as int));
                }
                Some(string_of(&stem))
            } else {
                None
            }
        },
        None => None,
    }
}

impl SkillRegistry {
    /// A registry without commands.
    pub fn empty() -> (r: SkillRegistry)
        ensures
            r@ == Seq::<(Seq<char>, Seq<char>)>::empty(),
    {
        let r = SkillRegistry { commands: Vec::new() };
        proof {
            assert(r@ =~= Seq::<(Seq<char>, Seq<char>)>::empty());
        }
        r
    }

    /// The registry built from the files of the commands directory: every
    /// `.md` file defines the command named by its stem; a later file of the
    /// same name replaces an earlier one.
    pub fn load(files: &Vec<CommandFile>) -> (r: SkillRegistry)
        ensures
            r@ == load_entries(file_views(files@)),
            sorted_entries(r@),
    {
        let mut reg = SkillRegistry::empty();
        let mut i: usize = 0;
        while i < files.len()
            invariant
                i <= files@.len(),
                reg@ == load_entries(file_views(files@).take(i as int)),
            decreases files@.len() - i,
        {
            proof {
                assert(file_views(files@).take(i + 1).drop_last() =~= file_views(files@).take(i as int));
                assert(file_views(files@).take(i + 1).last() == (files@[i as int].file_name@, files@[i as int].body@));
                lemma_load_entries_sorted(file_views(files@).take(i as int));
            }
            match command_name_of_file(files[i].file_name.as_str()) {
                Some(name) => {
                    reg.insert(name, files[i].body.clone());
                },
                None => {},
            }
            i = i + 1;
        }
        proof {
            assert(file_views(files@).take(files@.len() as int) =~= file_views(files@));
            lemma_load_entries_sorted(file_views(files@));
        }
        reg
    }

    fn insert(&mut self, name: String, body: String)
        requires
            sorted_entries(old(self)@),
        ensures
            final(self)@ == insert_entry(old(self)@, name@, body@),
    {
        let key = chars_of(name.as_str());
        let ghost e = self@;
        let mut k: usize = 0;
        proof {
            lemma_first_not_below(e, name@, 0);
        }
        let mut found = false;
        while k < self.commands.len() && !found
            invariant
                e == self@,
                k <= e.len(),
                key@ == name@,
                first_not_below(e, name@, 0) == first_not_below(e, name@, k as int),
                found ==> k < e.len() && !lex_lt(e[k as int].0, name@),
            decreases e.len() - k + (if found { 0int } else { 1int }),
        {
            let cur = chars_of(self.commands[k].name.as_str());
            if lex_less(&cur, &key) {
                k = k + 1;
            } else {
                found = true;
            }
        }
        let replace = k < self.commands.len() && str_eq(self.commands[k].name.as_str(), name.as_str());
        if replace {
            self.commands.set(k, SkillDoc { name, body });
            proof {
                assert(self@ =~= e.update(k as int, (name@, body@)));
            }
        } else {
            self.commands.insert(k, SkillDoc { name, body });
            proof {
                assert(self@ =~= e.insert(k as int, (name@, body@)));
            }
        }
    }
}


/// The index of the first entry named `key`, or -1.
pub open spec fn index_of_name(e: Seq<(Seq<char>, Seq<char>)>, key: Seq<char>, i: int) -> int
    decreases e.len() - i,
{
    if i < 0 || i >= e.len() {
        -1
    } else if e[i].0 == key {
        i
    } else {
        index_of_name(e, key, i + 1)
    }
}

/// The index of the first entry whose name equals `key` ignoring ASCII case,
/// or -1.
pub open spec fn index_of_name_ci(e: Seq<(Seq<char>, Seq<char>)>, key: Seq<char>, i: int) -> int
    decreases e.len() - i,
{
    if i < 0 || i >= e.len() {
        -1
    } else if ascii_lower(e[i].0) == ascii_lower(key) {
        i
    } else {
        index_of_name_ci(e, key, i + 1)
    }
}

/// `s` with every character that `from` holds replaced by `to`.
pub open spec fn replace_chars(s: Seq<char>, a: char, b: char, to: char) -> Seq<char> {
    s.map_values(|c: char| if c == a || c == b { to } else { c })
}

/// `list` with `x` appended unless it is there already.
pub open spec fn push_new(list: Seq<Seq<char>>, x: Seq<char>) -> Seq<Seq<char>> {
    if list.contains(x) {
        list
    } else {
        list.push(x)
    }
}

/// The spellings under which a command may be mentioned: its name trimmed and
/// lower-cased, and that name with `-`, `_` and spaces made uniform.
pub open spec fn command_aliases_of(name: Seq<char>) -> Seq<Seq<char>> {
    let lower = ascii_lower(trim(name));
    push_new(
        push_new(push_new(seq![lower], replace_chars(lower, '-', '_', ' ')), replace_chars(lower, '-', ' ', '_')),
        replace_chars(lower, '_', ' ', '-'),
    )
}

/// Some alias occurs in `hay`.
pub open spec fn mentions_any(hay: Seq<char>, aliases: Seq<Seq<char>>) -> bool {
    exists|i: int| 0 <= i < aliases.len() && contains(hay, #[trigger] aliases[i])
}

/// The names, in order, that the message mentions.
pub open spec fn mentioned_names(names: Seq<Seq<char>>, lowered_message: Seq<char>) -> Seq<Seq<char>>
    decreases names.len(),
{
    if names.len() == 0 {
        seq![]
    } else {
        let prev = mentioned_names(names.drop_last(), lowered_message);
        if mentions_any(lowered_message, command_aliases_of(names.last())) {
            prev.push(names.last())
        } else {
            prev
        }
    }
}

fn replace_two(v: &Vec<char>, a: char, b: char, to: char) -> (r: Vec<char>)
    ensures
        r@ == replace_chars(v@, a, b, to),
{
    let mut r: Vec<char> = Vec::new();
    let mut i: usize = 0;
    while i < v.len()
        invariant
            i <= v@.len(),
            r@ == replace_chars(v@.take(i as int), a, b, to),
        decreases v@.len() - i,
    {
        let c = v[i];
        if c == a || c == b {
            r.push(to);
        } else {
            r.push(c);
        }
        proof {
            assert(r@ =~= replace_chars(v@.take(i + 1), a, b, to));
        }
        i = i + 1;
    }
    proof {
        assert(v@.take(v@.len() as int) =~= v@);
    }
    r
}

fn push_new_alias(list: &mut Vec<Vec<char>>, x: Vec<char>)
    ensures
        views(final(list)@) == push_new(views(old(list)@), x@),
{
    let mut i: usize = 0;
    while i < list.len()
        invariant
            i <= list@.len(),
            forall|j: int| 0 <= j < i ==> list@[j]@ != x@,
        decreases list@.len() - i,
    {
        if seq_eq(&list[i], &x) {
            proof {
                assert(views(list@)[i as int] == x@);
            }
            return;
        }
        i = i + 1;
    }
    proof {
        assert forall|j: int| 0 <= j < views(list@).len() implies views(list@)[j] != x@ by {
            assert(views(list@)[j] == list@[j]@);
        }
    }
    let ghost before = list@;
    list.push(x);
    proof {
        assert(views(list@) =~= views(before).push(x@));
    }
}

/// The spellings under which the command `name` may be mentioned.
pub fn command_aliases(name: &str) -> (r: Vec<String>)
    ensures
        string_views(r@) == command_aliases_of(name@),
{
    let t = trim_str(name);
    let tv = chars_of(t.as_str());
    let lower = lower_chars(&tv);
    let spaced = replace_two(&lower, '-', '_', ' ');
    let underscored = replace_two(&lower, '-', ' ', '_');
    let dashed = replace_two(&lower, '_', ' ', '-');
    let mut aliases: Vec<Vec<char>> = Vec::new();
    aliases.push(lower);
    proof {
        assert(views(aliases@) =~= seq![ascii_lower(trim(name@))]);
    }
    push_new_alias(&mut aliases, spaced);
    push_new_alias(&mut aliases, underscored);
    push_new_alias(&mut aliases, dashed);
    let mut r: Vec<String> = Vec::new();
    let mut i: usize = 0;
    while i < aliases.len()
        invariant
            i <= aliases@.len(),
            string_views(r@) == views(aliases@).take(i as int),
        decreases aliases@.len() - i,
    {
        let ghost before = r@;
        r.push(string_of(&aliases[i]));
        proof {
            assert(string_views(r@) =~= string_views(before).push(aliases@[i as int]@));
            assert(views(aliases@).take(i + 1) =~= views(aliases@).take(i as int).push(aliases@[i as int]@));
        }
        i = i + 1;
    }
    proof {
        assert(views(aliases@).take(aliases@.len() as int) =~= views(aliases@));
    }
    r
}

/// Whether `hay` holds one of the aliases.
fn mentions_any_of(hay: &Vec<char>, aliases: &Vec<String>) -> (r: bool)
    ensures
        r == mentions_any(hay@, string_views(aliases@)),
{
    let mut i: usize = 0;
    while i < aliases.len()
        invariant
            i <= aliases@.len(),
            forall|j: int| 0 <= j < i ==> !contains(hay@, #[trigger] string_views(aliases@)[j]),
        decreases aliases@.len() - i,
    {
        let a = chars_of(aliases[i].as_str());
        if contains_chars(hay, &a) {
            proof {
                assert(string_views(aliases@)[i as int] == a@);
            }
            return true;
        }
        i = i + 1;
    }
    false
}

impl SkillRegistry {
    /// The command names, in name order.
    pub fn available_commands(&self) -> (r: Vec<String>)
        ensures
            string_views(r@) == entry_names(self@),
    {
        let mut r: Vec<String> = Vec::new();
        let mut i: usize = 0;
        while i < self.commands.len()
            invariant
                i <= self.commands@.len(),
                string_views(r@) == entry_names(self@).take(i as int),
            decreases self.commands@.len() - i,
        {
            let ghost before = r@;
            r.push(self.commands[i].name.clone());
            proof {
                assert(string_views(r@) =~= string_views(before).push(self.commands@[i as int].name@));
                assert(entry_names(self@).take(i + 1) =~= entry_names(self@).take(i as int).push(self.commands@[i as int].name@));
            }
            i = i + 1;
        }
        proof {
            assert(entry_names(self@).take(self.commands@.len() as int) =~= entry_names(self@));
        }
        r
    }

    fn find_exact(&self, key: &str) -> (r: Option<usize>)
        ensures
            match r {
                Some(k) => k as int == index_of_name(self@, key@, 0) && k < self@.len(),
                None => index_of_name(self@, key@, 0) == -1,
            },
    {
        let mut i: usize = 0;
        while i < self.commands.len()
            invariant
                i <= self.commands@.len(),
                index_of_name(self@, key@, 0) == index_of_name(self@, key@, i as int),
            decreases self.commands@.len() - i,
        {
            if str_eq(self.commands[i].name.as_str(), key) {
                return Some(i);
            }
            i = i + 1;
        }
        None
    }

    /// The Markdown of the command `name`, trimmed; none when there is no
    /// such command or its text is blank.
    pub fn command_markdown(&self, name: &str) -> (r: Option<String>)
        ensures
            ({
                let k = index_of_name(self@, name@, 0);
                if k >= 0 && trim(self@[k].1).len() > 0 {
                    r is Some && r->0@ == trim(self@[k].1)
                } else {
                    r is None
                }
            }),
    {
        match self.find_exact(name) {
            Some(k) => {
                let body = trim_str(self.commands[k].body.as_str());
                if char_count(body.as_str()) > 0 {
                    Some(body)
                } else {
                    None
                }
            },
            None => None,
        }
    }

    /// The name of the first command, in name order, that equals `name`
    /// trimmed, ignoring ASCII case.
    pub fn resolve_command_name(&self, name: &str) -> (r: Option<String>)
        ensures
            ({
                let k = index_of_name_ci(self@, trim(name@), 0);
                if k >= 0 {
                    r is Some && r->0@ == self@[k].0
                } else {
                    r is None
                }
            }),
    {
        let t = trim_str(name);
        let tv = chars_of(t.as_str());
        let key = lower_chars(&tv);
        let mut i: usize = 0;
        while i < self.commands.len()
            invariant
                i <= self.commands@.len(),
                key@ == ascii_lower(trim(name@)),
                index_of_name_ci(self@, trim(name@), 0) == index_of_name_ci(self@, trim(name@), i as int),
            decreases self.commands@.len() - i,
        {
            let cv = chars_of(self.commands[i].name.as_str());
            let cl = lower_chars(&cv);
            if seq_eq(&cl, &key) {
                return Some(self.commands[i].name.clone());
            }
            i = i + 1;
        }
        None
    }

    /// The commands, in name order, that the message mentions under one of
    /// their aliases (ignoring ASCII case).
    pub fn mentioned_commands(&self, message: &str) -> (r: Vec<String>)
        ensures
            string_views(r@) == mentioned_names(entry_names(self@), ascii_lower(message@)),
    {
        let mv = chars_of(message);
        let lowered = lower_chars(&mv);
        let names = self.available_commands();
        let mut r: Vec<String> = Vec::new();
        let mut i: usize = 0;
        while i < names.len()
            invariant
                i <= names@.len(),
                lowered@ == ascii_lower(message@),
                string_views(names@) == entry_names(self@),
                string_views(r@) == mentioned_names(string_views(names@).take(i as int), lowered@),
            decreases names@.len() - i,
        {
            proof {
                assert(string_views(names@).take(i + 1).drop_last() =~= string_views(names@).take(i as int));
                assert(string_views(names@).take(i + 1).last() == names@[i as int]@);
            }
            let aliases = command_aliases(names[i].as_str());
            if mentions_any_of(&lowered, &aliases) {
                let ghost before = r@;
                r.push(names[i].clone());
                proof {
                    assert(string_views(r@) =~= string_views(before).push(names@[i as int]@));
                }
            }
            i = i + 1;
        }
        proof {
            assert(string_views(names@).take(names@.len() as int) =~= string_views(names@));
        }
        r
    }
}

/// The names of entries with one entry added or replaced are the old names
/// and the new one.
proof fn lemma_insert_entry_names(e: Seq<(Seq<char>, Seq<char>)>, key: Seq<char>, body: Seq<char>, n: Seq<char>)
    requires
        sorted_entries(e),
    ensures
        entry_names(insert_entry(e, key, body)).contains(n) <==> (entry_names(e).contains(n) || n == key),
{
    lemma_first_not_below(e, key, 0);
    let k = first_not_below(e, key, 0);
    let out = insert_entry(e, key, body);
    let old_names = entry_names(e);
    let new_names = entry_names(out);
    if k < e.len() && e[k].0 == key {
        assert(new_names =~= old_names);
        assert(old_names[k] == key);
    } else {
        assert(new_names =~= old_names.insert(k, key));
        if old_names.contains(n) {
            let j = choose|j: int| 0 <= j < old_names.len() && old_names[j] == n;
            if j < k {
                assert(new_names[j] == n);
            } else {
                assert(new_names[j + 1] == n);
            }
        }
        if new_names.contains(n) {
            let j = choose|j: int| 0 <= j < new_names.len() && new_names[j] == n;
            if j < k {
                assert(old_names[j] == n);
            } else if j > k {
                assert(old_names[j - 1] == n);
            }
        }
        assert(new_names[k] == key);
    }
}

/// The commands that loading `files` gives: their names strictly ascend, and
/// a name is among them exactly when some `.md` file among `files` has it as
/// its stem.
pub proof fn law_commands_are_md_stems(files: Seq<(Seq<char>, Seq<char>)>, n: Seq<char>)
    ensures
        forall|i: int, j: int|
            0 <= i < j < entry_names(load_entries(files)).len() ==> lex_lt(
                #[trigger] entry_names(load_entries(files))[i],
                #[trigger] entry_names(load_entries(files))[j],
            ),
        entry_names(load_entries(files)).contains(n) <==> exists|k: int|
            0 <= k < files.len() && command_name_of(#[trigger] files[k].0) == Some(n),
    decreases files.len(),
{
    lemma_load_entries_sorted(files);
    if files.len() > 0 {
        let init = files.drop_last();
        law_commands_are_md_stems(init, n);
        let prev = load_entries(init);
        lemma_load_entries_sorted(init);
        match command_name_of(files.last().0) {
            Some(key) => lemma_insert_entry_names(prev, key, files.last().1, n),
            None => {},
        }
        if exists|k: int| 0 <= k < files.len() && command_name_of(#[trigger] files[k].0) == Some(n) {
            let k = choose|k: int| 0 <= k < files.len() && command_name_of(#[trigger] files[k].0) == Some(n);
            if k < files.len() - 1 {
                assert(init[k] == files[k]);
            }
        }
        if exists|k: int| 0 <= k < init.len() && command_name_of(#[trigger] init[k].0) == Some(n) {
            let k = choose|k: int| 0 <= k < init.len() && command_name_of(#[trigger] init[k].0) == Some(n);
            assert(files[k] == init[k]);
        }
    }
}

/// A command is mentioned exactly when it is among `names` and the lowered
/// message holds one of its aliases; the mentioned commands keep the order
/// of `names`, so strictly ascending names give strictly ascending mentions.
pub proof fn law_mentioned_commands(names: Seq<Seq<char>>, lowered_message: Seq<char>, n: Seq<char>)
    ensures
        mentioned_names(names, lowered_message).contains(n) <==> (names.contains(n) && mentions_any(
            lowered_message,
            command_aliases_of(n),
        )),
        (forall|i: int, j: int| 0 <= i < j < names.len() ==> lex_lt(#[trigger] names[i], #[trigger] names[j]))
            ==> (forall|i: int, j: int|
            0 <= i < j < mentioned_names(names, lowered_message).len() ==> lex_lt(
                #[trigger] mentioned_names(names, lowered_message)[i],
                #[trigger] mentioned_names(names, lowered_message)[j],
            )),
    decreases names.len(),
{
    lemma_mentioned_subseq(names, lowered_message);
    if names.len() > 0 {
        let init = names.drop_last();
        law_mentioned_commands(init, lowered_message, n);
        if names.contains(n) {
            let j = choose|j: int| 0 <= j < names.len() && names[j] == n;
            if j < names.len() - 1 {
                assert(init[j] == n);
            }
        }
        if init.contains(n) {
            let j = choose|j: int| 0 <= j < init.len() && init[j] == n;
            assert(names[j] == n);
        }
        let prev = mentioned_names(init, lowered_message);
        if mentions_any(lowered_message, command_aliases_of(names.last())) {
            assert(mentioned_names(names, lowered_message)[prev.len() as int] == names.last());
        }
        if prev.contains(n) {
            let j = choose|j: int| 0 <= j < prev.len() && prev[j] == n;
            assert(mentioned_names(names, lowered_message)[j] == n);
        }
        if mentioned_names(names, lowered_message).contains(n) {
            let j = choose|j: int| 0 <= j < mentioned_names(names, lowered_message).len() && mentioned_names(names, lowered_message)[j] == n;
            if j < prev.len() {
                assert(prev[j] == n);
            }
        }
    }
}

/// Each mentioned name stands among `names` at a position that grows with
/// its own.
proof fn lemma_mentioned_subseq(names: Seq<Seq<char>>, lowered_message: Seq<char>)
    ensures
        exists|pos: Seq<int>| #![trigger pos.len()]
            pos.len() == mentioned_names(names, lowered_message).len() && (forall|i: int|
                0 <= i < pos.len() ==> 0 <= #[trigger] pos[i] < names.len() && names[pos[i]]
                    == mentioned_names(names, lowered_message)[i]) && (forall|i: int, j: int|
                0 <= i < j < pos.len() ==> #[trigger] pos[i] < #[trigger] pos[j]),
        (forall|i: int, j: int| 0 <= i < j < names.len() ==> lex_lt(#[trigger] names[i], #[trigger] names[j]))
            ==> (forall|i: int, j: int|
            0 <= i < j < mentioned_names(names, lowered_message).len() ==> lex_lt(
                #[trigger] mentioned_names(names, lowered_message)[i],
                #[trigger] mentioned_names(names, lowered_message)[j],
            )),
    decreases names.len(),
{
    let m = mentioned_names(names, lowered_message);
    if names.len() == 0 {
        let pos: Seq<int> = seq![];
        assert(pos.len() == m.len());
    } else {
        let init = names.drop_last();
        lemma_mentioned_subseq(init, lowered_message);
        let prev = mentioned_names(init, lowered_message);
        let p0 = choose|pos: Seq<int>| #![trigger pos.len()]
            pos.len() == prev.len() && (forall|i: int|
                0 <= i < pos.len() ==> 0 <= #[trigger] pos[i] < init.len() && init[pos[i]] == prev[i]) && (
            forall|i: int, j: int| 0 <= i < j < pos.len() ==> #[trigger] pos[i] < #[trigger] pos[j]);
        let pos = if m.len() > prev.len() { p0.push(names.len() - 1) } else { p0 };
        assert forall|i: int| 0 <= i < pos.len() implies 0 <= #[trigger] pos[i] < names.len() && names[pos[i]] == m[i] by {
            if i < p0.len() {
                assert(init[p0[i]] == names[p0[i]]);
            }
        }
        assert(pos.len() == m.len());
        if forall|i: int, j: int| 0 <= i < j < names.len() ==> lex_lt(#[trigger] names[i], #[trigger] names[j]) {
            assert forall|i: int, j: int| 0 <= i < j < m.len() implies lex_lt(#[trigger] m[i], #[trigger] m[j]) by {
                assert(pos[i] < pos[j]);
                assert(names[pos[i]] == m[i] && names[pos[j]] == m[j]);
            }
        }
    }
}

/// The text of the last of `files` that defines the command `name`.
pub open spec fn last_file_body(files: Seq<(Seq<char>, Seq<char>)>, name: Seq<char>) -> Option<Seq<char>>
    decreases files.len(),
{
    if files.len() == 0 {
        None
    } else if command_name_of(files.last().0) == Some(name) {
        Some(files.last().1)
    } else {
        last_file_body(files.drop_last(), name)
    }
}

proof fn lemma_index_of_name(e: Seq<(Seq<char>, Seq<char>)>, key: Seq<char>, i: int)
    requires
        0 <= i,
    ensures
        index_of_name(e, key, i) == -1 || (i <= index_of_name(e, key, i) < e.len() && e[index_of_name(
            e,
            key,
            i,
        )].0 == key),
        index_of_name(e, key, i) == -1 ==> forall|j: int| i <= j < e.len() ==> (#[trigger] e[j]).0 != key,
        index_of_name(e, key, i) >= 0 ==> forall|j: int|
            i <= j < index_of_name(e, key, i) ==> (#[trigger] e[j]).0 != key,
    decreases e.len() - i,
{
    if i < e.len() && e[i].0 != key {
        lemma_index_of_name(e, key, i + 1);
    }
}

/// In entries strictly ordered by name, the exact lookup of a name finds the
/// one entry of that name.
proof fn lemma_index_of_unique(e: Seq<(Seq<char>, Seq<char>)>, key: Seq<char>, j: int)
    requires
        sorted_entries(e),
        0 <= j < e.len(),
        e[j].0 == key,
    ensures
        index_of_name(e, key, 0) == j,
{
    lemma_index_of_name(e, key, 0);
    let r = index_of_name(e, key, 0);
    assert(r >= 0);
    if r < j {
        assert(lex_lt(e[r].0, e[j].0));
        crate::text::lemma_lex_irreflexive(key);
    }
}

/// The bodies an entry list holds under `name`.
pub open spec fn has_entry(e: Seq<(Seq<char>, Seq<char>)>, name: Seq<char>, body: Seq<char>) -> bool {
    exists|j: int| 0 <= j < e.len() && e[j] == (name, body)
}

proof fn lemma_insert_entry_has(e: Seq<(Seq<char>, Seq<char>)>, key: Seq<char>, body: Seq<char>, name: Seq<char>, b: Seq<char>)
    requires
        sorted_entries(e),
    ensures
        has_entry(insert_entry(e, key, body), name, b) <==> (if name == key {
            b == body
        } else {
            has_entry(e, name, b)
        }),
{
    lemma_first_not_below(e, key, 0);
    lemma_insert_entry_sorted(e, key, body);
    let k = first_not_below(e, key, 0);
    let out = insert_entry(e, key, body);
    let replaced = k < e.len() && e[k].0 == key;
    if replaced {
        assert(out[k] == (key, body));
    } else {
        assert(out[k] == (key, body));
    }
    if has_entry(out, name, b) {
        let j = choose|j: int| 0 <= j < out.len() && out[j] == (name, b);
        if name == key {
            lemma_index_of_unique(out, key, j);
            lemma_index_of_unique(out, key, k);
        } else {
            if replaced {
                assert(e[j] == out[j]);
            } else if j < k {
                assert(e[j] == out[j]);
            } else {
                assert(j != k);
                assert(e[j - 1] == out[j]);
            }
        }
    }
    if name == key && b == body {
        assert(out[k] == (name, b));
    }
    if name != key && has_entry(e, name, b) {
        let j = choose|j: int| 0 <= j < e.len() && e[j] == (name, b);
        if replaced {
            assert(j != k);
            assert(out[j] == e[j]);
        } else if j < k {
            assert(out[j] == e[j]);
        } else {
            assert(out[j + 1] == e[j]);
        }
    }
}

proof fn lemma_load_has(files: Seq<(Seq<char>, Seq<char>)>, name: Seq<char>, b: Seq<char>)
    ensures
        has_entry(load_entries(files), name, b) <==> last_file_body(files, name) == Some(b),
    decreases files.len(),
{
    if files.len() == 0 {
    } else {
        let init = files.drop_last();
        lemma_load_has(init, name, b);
        lemma_load_entries_sorted(init);
        match command_name_of(files.last().0) {
            Some(key) => lemma_insert_entry_has(load_entries(init), key, files.last().1, name, b),
            None => {},
        }
    }
}

/// Looking a command up is exact: in a registry loaded from `files`, the
/// name `name` (compared case-sensitively) is found exactly when some `.md`
/// file has it as its stem, and then with the text of the last such file;
/// so `command_markdown(name)` is that text trimmed, unless it is blank.
pub proof fn law_command_lookup_is_exact(files: Seq<(Seq<char>, Seq<char>)>, name: Seq<char>)
    ensures
        index_of_name(load_entries(files), name, 0) >= 0 <==> last_file_body(files, name) is Some,
        index_of_name(load_entries(files), name, 0) >= 0 ==> Some(
            load_entries(files)[index_of_name(load_entries(files), name, 0)].1,
        ) == last_file_body(files, name),
{
    let e = load_entries(files);
    lemma_load_entries_sorted(files);
    lemma_index_of_name(e, name, 0);
    let k = index_of_name(e, name, 0);
    if k >= 0 {
        lemma_load_has(files, name, e[k].1);
        assert(e[k] == (name, e[k].1));
    }
    match last_file_body(files, name) {
        Some(b) => {
            lemma_load_has(files, name, b);
            let j = choose|j: int| 0 <= j < e.len() && e[j] == (name, b);
            lemma_index_of_unique(e, name, j);
        },
        None => {},
    }
}

} // verus!
