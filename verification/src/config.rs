//! Node configuration files: which paths name one, and the settings one holds.

use crate::text::{
    decimal, find_line_end, lemma_line_end_bounds, lemma_tokens_valid, line_end, push_decimal,
    split_tokens, strings_view, to_chars, to_string, tokens_in, valid_token,
};
use vstd::prelude::*;

verus! {

/// Where node configuration files are looked for when no directory is given.
pub const DEFAULT_BASE_CONF_PATH: &'static str = "/usr/local/etc/redis/cluster";

/// The greatest position below `n` at which `s` holds `c`, or -1.
pub open spec fn last_index_in(s: Seq<char>, c: char, n: int) -> int
    recommends
        n <= s.len(),
    decreases n,
{
    if n <= 0 {
        -1
    } else if s[n - 1] == c {
        n - 1
    } else {
        last_index_in(s, c, n - 1)
    }
}

/// `c` with an ASCII capital turned into its small letter.
pub open spec fn ascii_lower(c: char) -> char {
    if 'A' <= c <= 'Z' {
        ((c as u8) + 0x20) as char
    } else {
        c
    }
}

/// Whether the file name that ends `path` has the extension `conf`, in any mix
/// of upper and lower case. The file name is what follows the last `/`; its
/// extension is what follows its last `.`, unless that `.` opens the name.
pub open spec fn has_conf_extension(path: Seq<char>) -> bool {
    let n = path.len() as int;
    let name = last_index_in(path, '/', n) + 1;
    let dot = last_index_in(path, '.', n);
    &&& name < dot
    &&& dot + 5 == n
    &&& ascii_lower(path[dot + 1]) == 'c'
    &&& ascii_lower(path[dot + 2]) == 'o'
    &&& ascii_lower(path[dot + 3]) == 'n'
    &&& ascii_lower(path[dot + 4]) == 'f'
}

/// The paths of `paths` that name a node configuration file, in order.
pub open spec fn conf_paths(paths: Seq<Seq<char>>) -> Seq<Seq<char>>
    decreases paths.len(),
{
    if paths.len() == 0 {
        Seq::empty()
    } else if has_conf_extension(paths.last()) {
        conf_paths(paths.drop_last()).push(paths.last())
    } else {
        conf_paths(paths.drop_last())
    }
}

fn find_last(s: &Vec<char>, c: char) -> (r: Option<usize>)
    ensures
        match r {
            Some(k) => k < s.len() && k == last_index_in(s@, c, s.len() as int),
            None => last_index_in(s@, c, s.len() as int) == -1,
        },
{
    let mut n: usize = s.len();
    while n > 0
        invariant
            n <= s.len(),
            last_index_in(s@, c, s.len() as int) == last_index_in(s@, c, n as int),
        decreases n,
    {
        if s[n - 1] == c {
            return Some(n - 1);
        }
        n = n - 1;
    }
    None
}

fn is_letter(c: char, small: char) -> (b: bool)
    requires
        'a' <= small <= 'z',
    ensures
        b == (ascii_lower(c) == small),
{
    c == small || (c as u32) + 0x20 == small as u32
}

/// Whether `path` names a node configuration file.
pub fn is_conf_file(path: &str) -> (b: bool)
    ensures
        b == has_conf_extension(path@),
{
    let chars = to_chars(path);
    let n: usize = chars.len();
    let name: usize = match find_last(&chars, '/') {
        Some(k) => k + 1,
        None => 0,
    };
    match find_last(&chars, '.') {
        Some(dot) => {
            name < dot && n - dot == 5 && is_letter(chars[dot + 1], 'c') && is_letter(
                chars[dot + 2],
                'o',
            ) && is_letter(chars[dot + 3], 'n') && is_letter(chars[dot + 4], 'f')
        },
        None => false,
    }
}

/// Appends to `result_vec` the paths among `found` that name a node
/// configuration file, in the order in which they were found.
pub fn walk_directory(result_vec: &mut Vec<String>, found: &Vec<String>)
    ensures
        strings_view(final(result_vec)@) == strings_view(old(result_vec)@) + conf_paths(
            strings_view(found@),
        ),
{
    let mut i: usize = 0;
    let ghost all = strings_view(found@);
    assert(all.take(0) == Seq::<Seq<char>>::empty());
    assert(strings_view(result_vec@) + Seq::<Seq<char>>::empty() == strings_view(result_vec@));
    while i < found.len()
        invariant
            i <= found.len(),
            all == strings_view(found@),
            strings_view(result_vec@) == strings_view(old(result_vec)@) + conf_paths(
                all.take(i as int),
            ),
        decreases found.len() - i,
    {
        let ghost before = strings_view(result_vec@);
        assert(all.take(i + 1).drop_last() == all.take(i as int));
        assert(all.take(i + 1).last() == found@[i as int]@);
        if is_conf_file(found[i].as_str()) {
            result_vec.push(found[i].clone());
            assert(strings_view(result_vec@) == before.push(found@[i as int]@));
        }
        i = i + 1;
    }
    assert(all.take(found.len() as int) == all);
}

/// What is said of a path that should be a directory and is none.
pub open spec fn not_a_directory(base_dir: Seq<char>) -> Seq<char> {
    "Entry "@ + base_dir + " is not a directory."@
}

/// Collects the node configuration files under `base_dir`. `found` holds the
/// paths of the regular files met while walking `base_dir`, or nothing where
/// `base_dir` is no directory.
pub fn aggregate_config_files(base_dir: &str, found: Option<&Vec<String>>) -> (r: Result<
    Vec<String>,
    String,
>)
    ensures
        match found {
            Some(files) => r is Ok && strings_view(r->Ok_0@) == conf_paths(strings_view(files@)),
            None => r is Err && r->Err_0@ == not_a_directory(base_dir@),
        },
{
    match found {
        Some(files) => {
            let mut result_vec: Vec<String> = Vec::new();
            assert(strings_view(result_vec@) == Seq::<Seq<char>>::empty());
            walk_directory(&mut result_vec, files);
            assert(Seq::<Seq<char>>::empty() + conf_paths(strings_view(files@)) == conf_paths(
                strings_view(files@),
            ));
            Ok(result_vec)
        },
        None => {
            let mut msg = "Entry ".to_string();
            msg.append(base_dir);
            msg.append(" is not a directory.");
            Err(msg)
        },
    }
}

/// The line that closes a listing of `n` configuration files.
pub open spec fn found_line(n: nat) -> Seq<char> {
    "Found "@ + decimal(n) + " configuration files."@
}

/// Lists the node configuration files under `base_dir`: one line per file, then
/// a line with their number. `found` is as for [`aggregate_config_files`].
pub fn list_conf_files(base_dir: &str, found: Option<&Vec<String>>) -> (r: Result<
    Vec<String>,
    String,
>)
    ensures
        match found {
            Some(files) => r is Ok && strings_view(r->Ok_0@) == conf_paths(
                strings_view(files@),
            ).push(found_line(conf_paths(strings_view(files@)).len())),
            None => r is Err && r->Err_0@ == not_a_directory(base_dir@),
        },
{
    match aggregate_config_files(base_dir, found) {
        Ok(files) => {
            let mut lines = files;
            let ghost paths = strings_view(lines@);
            let mut last = "Found ".to_string();
            push_decimal(&mut last, lines.len() as u64);
            last.append(" configuration files.");
            lines.push(last);
            assert(strings_view(lines@) == paths.push(found_line(paths.len())));
            Ok(lines)
        },
        Err(err) => Err(err),
    }
}

/// The directory to search: the one given, or the default.
pub fn resolve_base_file_path(base_dir: &Option<String>) -> (r: String)
    ensures
        r@ == match base_dir {
            Some(path) => path@,
            None => DEFAULT_BASE_CONF_PATH@,
        },
{
    match base_dir {
        Some(path) => path.clone(),
        None => DEFAULT_BASE_CONF_PATH.to_string(),
    }
}

/// What a line's tokens mean: a setting where there are exactly two.
pub open spec fn line_setting(toks: Seq<Seq<char>>) -> Option<(Seq<char>, Seq<char>)> {
    if toks.len() == 2 {
        Some((toks[0], toks[1]))
    } else {
        None
    }
}

/// The settings of the well-formed lines of `s` from position `i` on, in order.
pub open spec fn settings_from(s: Seq<char>, i: int) -> Seq<(Seq<char>, Seq<char>)>
    recommends
        0 <= i <= s.len(),
    decreases s.len() - i,
{
    if i >= s.len() {
        Seq::empty()
    } else {
        let j = line_end(s, i);
        let rest = if i <= j < s.len() {
            settings_from(s, j + 1)
        } else {
            Seq::empty()
        };
        match line_setting(tokens_in(s, i, j)) {
            Some(kv) => seq![kv] + rest,
            None => rest,
        }
    }
}

/// The value that `settings` gives to `key`: that of the last line that sets it.
pub open spec fn lookup(settings: Seq<(Seq<char>, Seq<char>)>, key: Seq<char>) -> Option<
    Seq<char>,
>
    decreases settings.len(),
{
    if settings.len() == 0 {
        None
    } else if settings.last().0 == key {
        Some(settings.last().1)
    } else {
        lookup(settings.drop_last(), key)
    }
}

/// The port that a configuration file's text sets, if it sets one.
pub open spec fn conf_port(contents: Seq<char>) -> Option<Seq<char>> {
    lookup(settings_from(contents, 0), "port"@)
}

/// Every value that is read from a text is a valid token.
pub proof fn lemma_settings_valid(s: Seq<char>, i: int)
    requires
        0 <= i <= s.len(),
    ensures
        forall|k: int|
            0 <= k < settings_from(s, i).len() ==> valid_token(#[trigger] settings_from(s, i)[k].1),
    decreases s.len() - i,
{
    if i < s.len() {
        let j = line_end(s, i);
        lemma_line_end_bounds(s, i);
        lemma_tokens_valid(s, i, j);
        let rest = if j < s.len() {
            settings_from(s, j + 1)
        } else {
            Seq::empty()
        };
        if j < s.len() {
            lemma_settings_valid(s, j + 1);
        }
        match line_setting(tokens_in(s, i, j)) {
            Some(kv) => {
                assert(kv.1 == tokens_in(s, i, j)[1]);
                assert forall|k: int| 0 <= k < settings_from(s, i).len() implies valid_token(
                    #[trigger] settings_from(s, i)[k].1,
                ) by {
                    if k > 0 {
                        assert(settings_from(s, i)[k] == rest[k - 1]);
                    }
                }
            },
            None => {},
        }
    }
}

/// What `lookup` finds is the value of one of the settings.
pub proof fn lemma_lookup_is_value(settings: Seq<(Seq<char>, Seq<char>)>, key: Seq<char>)
    ensures
        lookup(settings, key) matches Some(value) ==> exists|k: int|
            0 <= k < settings.len() && (#[trigger] settings[k]).1 == value,
    decreases settings.len(),
{
    if settings.len() > 0 {
        if settings.last().0 == key {
            assert(settings[settings.len() - 1].1 == settings.last().1);
        } else {
            lemma_lookup_is_value(settings.drop_last(), key);
            if let Some(value) = lookup(settings.drop_last(), key) {
                let k = choose|k: int|
                    0 <= k < settings.drop_last().len() && (#[trigger] settings.drop_last()[k]).1
                        == value;
                assert(settings[k] == settings.drop_last()[k]);
            }
        }
    }
}

/// The port that a configuration file sets is a valid token.
pub proof fn lemma_conf_port_valid(contents: Seq<char>)
    ensures
        conf_port(contents) matches Some(port) ==> valid_token(port),
{
    lemma_settings_valid(contents, 0);
    lemma_lookup_is_value(settings_from(contents, 0), "port"@);
}

/// The settings of a node configuration file, in the order of its lines.
#[derive(Debug)]
pub struct Settings {
    pairs: Vec<(String, String)>,
}

impl View for Settings {
    type V = Seq<(Seq<char>, Seq<char>)>;

    closed spec fn view(&self) -> Seq<(Seq<char>, Seq<char>)> {
        Seq::new(self.pairs@.len(), |i: int| (self.pairs@[i].0@, self.pairs@[i].1@))
    }
}

impl Settings {
    /// The number of lines that set something.
    pub fn len(&self) -> (n: usize)
        ensures
            n == self@.len(),
    {
        self.pairs.len()
    }

    /// The value of `key`, if a line sets it.
    pub fn get(&self, key: &str) -> (r: Option<String>)
        ensures
            match r {
                Some(value) => lookup(self@, key@) == Some(value@),
                None => lookup(self@, key@) is None,
            },
    {
        let wanted = key.to_string();
        let mut n: usize = self.pairs.len();
        assert(self@.take(n as int) == self@);
        while n > 0
            invariant
                n <= self.pairs.len(),
                wanted@ == key@,
                lookup(self@, key@) == lookup(self@.take(n as int), key@),
            decreases n,
        {
            assert(self@.take(n as int).drop_last() == self@.take(n - 1));
            assert(self@.take(n as int).last() == self@[n - 1]);
            if self.pairs[n - 1].0 == wanted {
                return Some(self.pairs[n - 1].1.clone());
            }
            n = n - 1;
        }
        None
    }
}

/// Parses the text of a node configuration file. A line sets something iff it
/// holds exactly two tokens, the key and the value; other lines are passed over.
pub fn read_conf_file(contents: &str) -> (r: Settings)
    ensures
        r@ == settings_from(contents@, 0),
{
    let chars = to_chars(contents);
    let mut pairs: Vec<(String, String)> = Vec::new();
    let ghost mut done: Seq<(Seq<char>, Seq<char>)> = Seq::empty();
    let mut i: usize = 0;
    while i < chars.len()
        invariant
            i <= chars.len(),
            settings_from(chars@, 0) == done + settings_from(chars@, i as int),
            pairs@.len() == done.len(),
            forall|k: int| 0 <= k < done.len() ==> (#[trigger] pairs@[k]).0@ == done[k].0 && pairs@[k].1@ == done[k].1,
        decreases chars.len() - i,
    {
        let j: usize = find_line_end(&chars, i);
        let ghost rest = settings_from(chars@, j + 1);
        let toks = split_tokens(&chars, i, j);
        if toks.len() == 2 {
            let key = to_string(&toks[0]);
            let value = to_string(&toks[1]);
            proof {
                let kv = (key@, value@);
                assert(line_setting(tokens_in(chars@, i as int, j as int)) == Some(kv));
                assert(done + (seq![kv] + rest) == done.push(kv) + rest);
                done = done.push(kv);
            }
            pairs.push((key, value));
        }
        i = if j < chars.len() {
            j + 1
        } else {
            j
        };
    }
    assert(done + Seq::<(Seq<char>, Seq<char>)>::empty() == done);
    let r = Settings { pairs };
    assert(r@ =~= done);
    r
}

/// The port that a node configuration file sets, if it sets one.
pub fn read_conf_port(contents: &str) -> (r: Option<String>)
    ensures
        match r {
            Some(port) => conf_port(contents@) == Some(port@),
            None => conf_port(contents@) is None,
        },
{
    read_conf_file(contents).get("port")
}

} // verus!
