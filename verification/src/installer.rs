use vstd::prelude::*;

use crate::modbuild::{BuildType, ExcludePairView, ExcludeType, ModBuild};
use vstd::string::{StrSliceExecFns, StringExecFns};
use vstd::utf8::encode_utf8;

verus! {

/// Everything that can stop an installation before any file is produced.
#[derive(Clone, Copy, PartialEq, Eq, Debug, Structural)]
pub enum InstallError {
    /// The platform names no cache directory for this tool.
    NoCacheDirectory,
    /// The build type asks for a custom command but none is given.
    MissingCommand,
    /// The build command holds no words.
    EmptyCommand,
    /// The output path names neither a file nor a directory target.
    InvalidOutputPath,
    /// The output directory holds more or fewer than one matching file.
    NoUniqueOutput,
}

impl InstallError {
    /// A short description, for callers that report failures.
    pub fn describe(&self) -> &'static str {
        match self {
            InstallError::NoCacheDirectory => "could not determine cache directory",
            InstallError::MissingCommand => "custom command not specified",
            InstallError::EmptyCommand => "invalid command given",
            InstallError::InvalidOutputPath => "output path names neither file: nor dir:",
            InstallError::NoUniqueOutput => "matched more or less than one result files",
        }
    }
}

/// The needle occupies the haystack at offset `i`.
pub open spec fn matches_at(h: Seq<u8>, n: Seq<u8>, i: int) -> bool {
    h.subrange(i, i + n.len()) == n
}

/// The haystack begins with the needle.
pub open spec fn byte_prefix(h: Seq<u8>, n: Seq<u8>) -> bool {
    n.len() <= h.len() && h.take(n.len() as int) == n
}

/// The haystack ends with the needle.
pub open spec fn byte_suffix(h: Seq<u8>, n: Seq<u8>) -> bool {
    n.len() <= h.len() && h.skip(h.len() - n.len()) == n
}

/// The needle occurs somewhere in the haystack.
pub open spec fn byte_contains(h: Seq<u8>, n: Seq<u8>) -> bool {
    exists|i: int| 0 <= i <= h.len() - n.len() && matches_at(h, n, i)
}

/// Compares the needle against the haystack at one offset.
fn bytes_eq_at(h: &Vec<u8>, n: &Vec<u8>, off: usize) -> (r: bool)
    requires
        off + n@.len() <= h@.len(),
    ensures
        r == matches_at(h@, n@, off as int),
{
    proof {
        vstd::std_specs::vec::axiom_spec_len(h);
    }
    let m = n.len();
    let mut j: usize = 0;
    while j < m
        invariant
            j <= m == n@.len(),
            off + m <= h@.len() <= usize::MAX,
            forall|x: int| 0 <= x < j ==> h@[off + x] == n@[x],
        decreases m - j,
    {
        if h[off + j] != n[j] {
            proof {
                assert(h@.subrange(off as int, off + n@.len())[j as int] == h@[off + j]);
            }
            return false;
        }
        j = j + 1;
    }
    proof {
        assert(h@.subrange(off as int, off + n@.len()) =~= n@);
    }
    true
}

/// Whether the haystack begins with the needle.
pub fn starts_with_bytes(h: &Vec<u8>, n: &Vec<u8>) -> (r: bool)
    ensures
        r == byte_prefix(h@, n@),
{
    if n.len() > h.len() {
        return false;
    }
    let r = bytes_eq_at(h, n, 0);
    proof {
        assert(h@.subrange(0, n@.len() as int) =~= h@.take(n@.len() as int));
    }
    r
}

/// Whether the haystack ends with the needle.
pub fn ends_with_bytes(h: &Vec<u8>, n: &Vec<u8>) -> (r: bool)
    ensures
        r == byte_suffix(h@, n@),
{
    if n.len() > h.len() {
        return false;
    }
    let off = h.len() - n.len();
    let r = bytes_eq_at(h, n, off);
    proof {
        assert(h@.subrange(off as int, off + n@.len()) =~= h@.skip(h@.len() - n@.len()));
    }
    r
}

/// Whether the needle occurs anywhere in the haystack.
pub fn contains_bytes(h: &Vec<u8>, n: &Vec<u8>) -> (r: bool)
    ensures
        r == byte_contains(h@, n@),
{
    if n.len() > h.len() {
        return false;
    }
    if n.len() == 0 {
        proof {
            assert(h@.subrange(0, 0) =~= n@);
            assert(matches_at(h@, n@, 0));
        }
        return true;
    }
    proof {
        vstd::std_specs::vec::axiom_spec_len(h);
    }
    let last = h.len() - n.len();
    let mut i: usize = 0;
    while i <= last
        invariant
            i <= last + 1,
            last == h@.len() - n@.len(),
            0 < n@.len() <= h@.len() <= usize::MAX,
            forall|x: int| 0 <= x < i ==> !matches_at(h@, n@, x),
        decreases last + 1 - i,
    {
        if bytes_eq_at(h, n, i) {
            return true;
        }
        i = i + 1;
    }
    false
}

/// Whether one exclusion filter matches a file name, both as UTF-8 bytes.
pub open spec fn filter_matches(f: ExcludePairView, name: Seq<u8>) -> bool {
    match f.kind {
        ExcludeType::Starts => byte_prefix(name, encode_utf8(f.value)),
        ExcludeType::Ends => byte_suffix(name, encode_utf8(f.value)),
        ExcludeType::Contains => byte_contains(name, encode_utf8(f.value)),
    }
}

/// Whether any of the filters matches a file name.
pub open spec fn spec_should_exclude(filters: Seq<ExcludePairView>, name: Seq<u8>) -> bool {
    exists|i: int| 0 <= i < filters.len() && filter_matches(filters[i], name)
}

/// The file names of `names` that no filter matches, in order.
pub open spec fn spec_matching(filters: Seq<ExcludePairView>, names: Seq<Seq<char>>) -> Seq<
    Seq<char>,
>
    decreases names.len(),
{
    if names.len() == 0 {
        Seq::empty()
    } else {
        (if spec_should_exclude(filters, encode_utf8(names[0])) {
            Seq::empty()
        } else {
            seq![names[0]]
        }) + spec_matching(filters, names.drop_first())
    }
}

/// Replaces every at sign of `s` with `r`, character by character.
pub open spec fn spec_replace_at(s: Seq<char>, r: Seq<char>) -> Seq<char>
    decreases s.len(),
{
    if s.len() == 0 {
        Seq::empty()
    } else {
        (if s[0] == '@' {
            r
        } else {
            seq![s[0]]
        }) + spec_replace_at(s.drop_first(), r)
    }
}

/// Relies on str::replace with a one-character pattern: each occurrence of
/// that character is replaced by `to`, and nothing else changes.
#[verifier::external_body]
fn replace_at_signs(s: &str, to: &str) -> (r: String)
    ensures
        r@ == spec_replace_at(s@, to@),
{
    s.replace('@', to)
}

/// The words of a string split on whitespace. What str::split_whitespace
/// yields depends on the characters alone, so the pieces are a fixed
/// function of the string.
pub uninterp spec fn split_ws(s: Seq<char>) -> Seq<Seq<char>>;

/// Relies on str::split_whitespace: the words depend on the characters
/// alone.
#[verifier::external_body]
fn split_whitespace_vec(s: &str) -> (r: Vec<String>)
    ensures
        r@.map_values(|p: String| p@) == split_ws(s@),
{
    s.split_whitespace().map(|p| p.to_owned()).collect()
}

/// Relies on directories::ProjectDirs: the platform's cache directory for
/// this tool, where the platform defines one. The answer depends on the
/// environment, so nothing more is promised of it.
#[verifier::external_body]
fn project_cache_dir() -> (r: Option<String>) {
    let dirs = directories::ProjectDirs::from("com", "siesque", "mcmodbuild")?;
    Some(dirs.cache_dir().to_string_lossy().into_owned())
}

/// Where a build's output is to be found: one file by name, or one
/// directory whose files are sifted by the exclusion filters.
#[derive(Debug, Clone, PartialEq)]
pub enum OutTarget {
    File(String),
    Dir(String),
}

/// The haystack begins with the needle, as characters.
pub open spec fn char_prefix(h: Seq<char>, n: Seq<char>) -> bool {
    n.len() <= h.len() && h.take(n.len() as int) == n
}

/// The decisions of an installation: where a mod build is cached, built and
/// collected. Running git and the build command, and walking directories,
/// belong to the caller; every choice of path, command word and output file
/// is made here.
pub struct Installer {
    pub build: ModBuild,
    pub cache_dir: String,
    pub build_path: String,
}

impl Installer {
    /// Sets up the installation paths: the platform cache directory, and
    /// under it a working directory named by the mod's id and branch.
    pub fn new(build: ModBuild) -> (r: Result<Installer, InstallError>)
        ensures
            r is Ok ==> r->Ok_0.build == build && r->Ok_0.build_path@ == r->Ok_0.cache_dir@
                + seq!['/'] + build.id@ + seq!['-'] + build.branch@,
            r is Err ==> r->Err_0 == InstallError::NoCacheDirectory,
    {
        let cache_dir = match project_cache_dir() {
            Some(d) => d,
            None => {
                return Err(InstallError::NoCacheDirectory);
            },
        };
        let mut build_path = cache_dir.clone();
        build_path.append("/");
        build_path.append(build.id.as_str());
        build_path.append("-");
        build_path.append(build.branch.as_str());
        proof {
            reveal_strlit("/");
            reveal_strlit("-");
            assert("/"@ =~= seq!['/']);
            assert("-"@ =~= seq!['-']);
        }
        Ok(Installer { build, cache_dir, build_path })
    }

    /// Whether a file name is struck out by any of this build's exclusion
    /// filters, each matched against the name's UTF-8 bytes.
    pub fn should_exclude_file(&self, filename: &str) -> (r: bool)
        ensures
            r == spec_should_exclude(self.build@.exclude, encode_utf8(filename@)),
    {
        let name_b = filename.as_bytes_vec();
        let m = self.build.exclude.len();
        let mut i: usize = 0;
        while i < m
            invariant
                i <= m == self.build.exclude@.len(),
                name_b@ == encode_utf8(filename@),
                forall|j: int|
                    0 <= j < i ==> !filter_matches(#[trigger] self.build@.exclude[j], name_b@),
            decreases m - i,
        {
            let f = &self.build.exclude.as_slice()[i];
            let fb = f.value.as_str().as_bytes_vec();
            let hit = match f.kind {
                ExcludeType::Starts => starts_with_bytes(&name_b, &fb),
                ExcludeType::Ends => ends_with_bytes(&name_b, &fb),
                ExcludeType::Contains => contains_bytes(&name_b, &fb),
            };
            proof {
                assert(self.build@.exclude[i as int] == self.build.exclude@[i as int]@);
            }
            if hit {
                return true;
            }
            i = i + 1;
        }
        false
    }

    /// Resolves the build's output setting: at signs become the working
    /// directory's path, and a `file:` or `dir:` prefix names the kind of
    /// target. Anything else is `InvalidOutputPath`.
    pub fn get_built_files(&self) -> (r: Result<OutTarget, InstallError>)
        ensures
            ({
                let resolved = spec_replace_at(self.build.out@, self.build_path@);
                &&& char_prefix(resolved, "file:"@) ==> r is Ok && r->Ok_0 is File
                    && r->Ok_0->File_0@ == resolved.skip(5)
                &&& !char_prefix(resolved, "file:"@) && char_prefix(resolved, "dir:"@) ==> r is Ok
                    && r->Ok_0 is Dir && r->Ok_0->Dir_0@ == resolved.skip(4)
                &&& !char_prefix(resolved, "file:"@) && !char_prefix(resolved, "dir:"@) ==> r == Err::<
                    OutTarget,
                    InstallError,
                >(InstallError::InvalidOutputPath)
            }),
    {
        let resolved = replace_at_signs(self.build.out.as_str(), self.build_path.as_str());
        let n = resolved.as_str().unicode_len();
        proof {
            reveal_strlit("file:");
            reveal_strlit("dir:");
        }
        if n >= 5 && resolved.as_str().get_char(0) == 'f' && resolved.as_str().get_char(1) == 'i'
            && resolved.as_str().get_char(2) == 'l' && resolved.as_str().get_char(3) == 'e'
            && resolved.as_str().get_char(4) == ':' {
            proof {
                assert(resolved@.take(5) =~= "file:"@);
            }
            let path = resolved.as_str().substring_char(5, n).to_owned();
            Ok(OutTarget::File(path))
        } else if n >= 4 && resolved.as_str().get_char(0) == 'd' && resolved.as_str().get_char(1) == 'i'
            && resolved.as_str().get_char(2) == 'r' && resolved.as_str().get_char(3) == ':' {
            proof {
                assert(resolved@.take(4) =~= "dir:"@);
                if char_prefix(resolved@, "file:"@) {
                    assert(resolved@.take(5)[0] == 'f');
                    assert(false);
                }
            }
            let path = resolved.as_str().substring_char(4, n).to_owned();
            Ok(OutTarget::Dir(path))
        } else {
            proof {
                if char_prefix(resolved@, "file:"@) {
                    assert(resolved@.take(5)[0] == resolved@[0] && resolved@.take(5)[1] == resolved@[1]
                        && resolved@.take(5)[2] == resolved@[2] && resolved@.take(5)[3] == resolved@[3]
                        && resolved@.take(5)[4] == resolved@[4]);
                    assert(false);
                }
                if char_prefix(resolved@, "dir:"@) {
                    assert(resolved@.take(4)[0] == resolved@[0] && resolved@.take(4)[1] == resolved@[1]
                        && resolved@.take(4)[2] == resolved@[2] && resolved@.take(4)[3] == resolved@[3]);
                    assert(false);
                }
            }
            Err(InstallError::InvalidOutputPath)
        }
    }

    /// Picks the one file of a directory listing that no exclusion filter
    /// strikes out; more or fewer than one is `NoUniqueOutput`.
    #[verifier::loop_isolation(false)]
    pub fn pick_built_file(&self, candidates: &Vec<String>) -> (r: Result<String, InstallError>)
        ensures
            ({
                let kept = spec_matching(
                    self.build@.exclude,
                    candidates@.map_values(|s: String| s@),
                );
                &&& r is Ok <==> kept.len() == 1
                &&& r is Ok ==> r->Ok_0@ == kept[0]
                &&& r is Err ==> r->Err_0 == InstallError::NoUniqueOutput
            }),
    {
        let ghost filters = self.build@.exclude;
        let ghost names = candidates@.map_values(|s: String| s@);
        let m = candidates.len();
        let mut kept: Vec<String> = Vec::new();
        let mut i: usize = 0;
        proof {
            assert(names.skip(0) =~= names);
            assert(kept@.map_values(|s: String| s@) =~= Seq::<Seq<char>>::empty());
            assert(Seq::<Seq<char>>::empty() + spec_matching(filters, names) =~= spec_matching(
                filters,
                names,
            ));
        }
        while i < m
            invariant
                i <= m,
                spec_matching(filters, names) == kept@.map_values(|s: String| s@)
                    + spec_matching(filters, names.skip(i as int)),
            decreases m - i,
        {
            let ghost acc = kept@.map_values(|s: String| s@);
            proof {
                assert(names.skip(i as int)[0] == names[i as int]);
                assert(names.skip(i as int).drop_first() =~= names.skip(i + 1));
                assert(names[i as int] == candidates@[i as int]@);
            }
            if !self.should_exclude_file(candidates.as_slice()[i].as_str()) {
                kept.push(candidates.as_slice()[i].clone());
                proof {
                    assert(kept@.map_values(|s: String| s@) =~= acc + seq![names[i as int]]);
                    assert((acc + seq![names[i as int]]) + spec_matching(
                        filters,
                        names.skip(i + 1),
                    ) =~= acc + (seq![names[i as int]] + spec_matching(filters, names.skip(i + 1))));
                }
            } else {
                proof {
                    assert(acc + (Seq::<Seq<char>>::empty() + spec_matching(
                        filters,
                        names.skip(i + 1),
                    )) =~= acc + spec_matching(filters, names.skip(i + 1)));
                }
            }
            i = i + 1;
        }
        proof {
            assert(names.skip(m as int) =~= Seq::<Seq<char>>::empty());
            assert(kept@.map_values(|s: String| s@) + Seq::<Seq<char>>::empty() =~= kept@
                .map_values(|s: String| s@));
        }
        if kept.len() == 1 {
            let mut kept = kept;
            let r = kept.remove(0);
            Ok(r)
        } else {
            Err(InstallError::NoUniqueOutput)
        }
    }

    /// The words of the build command: the custom command when the build
    /// type asks for one, otherwise the standard build invocation. The
    /// first word is the program, the rest its arguments; the command runs
    /// in the working directory.
    pub fn build_command(&self) -> (r: Result<(String, Vec<String>), InstallError>)
        ensures
            self.build.build is Cmd && self.build.cmd is None ==> r == Err::<
                (String, Vec<String>),
                InstallError,
            >(InstallError::MissingCommand),
            ({
                let chosen = if self.build.build is Std {
                    "./gradlew build"@
                } else {
                    self.build.cmd->0@
                };
                self.build.build is Std || self.build.cmd is Some ==> {
                    &&& r is Ok <==> split_ws(chosen).len() > 0
                    &&& r is Ok ==> r->Ok_0.0@ == split_ws(chosen)[0]
                        && r->Ok_0.1@.map_values(|p: String| p@) == split_ws(chosen).skip(1)
                    &&& r is Err ==> r->Err_0 == InstallError::EmptyCommand
                }
            }),
    {
        let parts = match &self.build.build {
            BuildType::Std => split_whitespace_vec("./gradlew build"),
            BuildType::Cmd => match &self.build.cmd {
                Some(c) => split_whitespace_vec(c.as_str()),
                None => {
                    return Err(InstallError::MissingCommand);
                },
            },
        };
        let ghost chosen = if self.build.build is Std {
            "./gradlew build"@
        } else {
            self.build.cmd->0@
        };
        proof {
            assert(parts@.map_values(|p: String| p@) == split_ws(chosen));
        }
        match command_parts(parts) {
            Ok((program, args)) => {
                proof {
                    assert(args@.map_values(|p: String| p@) =~= split_ws(chosen).skip(1));
                }
                Ok((program, args))
            },
            Err(e) => Err(e),
        }
    }

    /// The git invocation that first fetches the repository: a shallow
    /// clone of the configured branch into the working directory.
    pub fn git_clone_command(&self) -> (r: (String, Vec<String>))
        ensures
            r.0@ == "git"@,
            r.1@.len() == 7,
            r.1@[0]@ == "clone"@,
            r.1@[1]@ == self.build.git@,
            r.1@[2]@ == self.build_path@,
            r.1@[3]@ == "-b"@,
            r.1@[4]@ == self.build.branch@,
            r.1@[5]@ == "--depth"@,
            r.1@[6]@ == "1"@,
    {
        let mut args: Vec<String> = Vec::new();
        args.push(String::from_str("clone"));
        args.push(self.build.git.clone());
        args.push(self.build_path.clone());
        args.push(String::from_str("-b"));
        args.push(self.build.branch.clone());
        args.push(String::from_str("--depth"));
        args.push(String::from_str("1"));
        (String::from_str("git"), args)
    }

    /// The git invocation that refreshes an already-cloned repository; it
    /// runs in the working directory.
    pub fn git_pull_command(&self) -> (r: (String, Vec<String>))
        ensures
            r.0@ == "git"@,
            r.1@.len() == 1,
            r.1@[0]@ == "pull"@,
    {
        let mut args: Vec<String> = Vec::new();
        args.push(String::from_str("pull"));
        (String::from_str("git"), args)
    }
}

/// Splits a command's words into the program and its arguments; a command
/// of no words is `EmptyCommand`.
pub fn command_parts(parts: Vec<String>) -> (r: Result<(String, Vec<String>), InstallError>)
    ensures
        r is Ok <==> parts@.len() > 0,
        r is Ok ==> r->Ok_0.0 == parts@[0] && r->Ok_0.1@ == parts@.skip(1),
        r is Err ==> r->Err_0 == InstallError::EmptyCommand,
{
    let ghost orig = parts@;
    let mut parts = parts;
    if parts.len() == 0 {
        return Err(InstallError::EmptyCommand);
    }
    let program = parts.remove(0);
    proof {
        assert(parts@ =~= orig.skip(1));
    }
    Ok((program, parts))
}

} // verus!
