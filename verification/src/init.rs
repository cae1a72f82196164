//! The declaration of a module: its name, the functions it exports, and
//! the hooks that the host calls when it loads, upgrades and unloads it.

use vstd::pervasive::unreached;
use vstd::prelude::*;
use vstd::string::StringExecFns;

use crate::context::same_text;
use crate::resource::{place_of, Registry};

verus! {

/// An expression of a module declaration, by its text.
#[derive(Debug, PartialEq, Eq)]
pub enum Expr {
    /// A path, such as `my_module::add`.
    Path(String),
    /// Anything else.
    Other(String),
}

/// What follows one comma after the list of functions.
#[derive(Debug, PartialEq, Eq)]
pub enum InitOption {
    /// An assignment. `left` is the identifier on the left where the left
    /// side is one identifier and nothing more.
    Assign { left: Option<String>, right: Expr },
    /// What is no assignment, with what the parser says of it.
    Other(String),
}

/// Why a module declaration is refused.
#[derive(Debug, PartialEq, Eq)]
pub enum InitError {
    /// An option is no assignment such as `load = load`; what the parser
    /// says of it.
    NotAnAssignment(String),
    /// An option has a name that is not known; the name.
    UnsupportedOption(String),
    /// An exported function is not given by a path.
    ExpectedPath,
}

/// The declaration of a module.
#[derive(Debug, PartialEq, Eq)]
pub struct InitMacroInput {
    pub name: String,
    pub funcs: Vec<Expr>,
    pub load: Option<Expr>,
    pub unload: Option<Expr>,
    pub upgrade: Option<Expr>,
}

/// The major version of the host's interface for native code that an entry
/// declares.
pub const NIF_MAJOR_VERSION: i32 = 2;

/// The minor version of the host's interface for native code that an entry
/// declares.
pub const NIF_MINOR_VERSION: i32 = 14;

/// A callback that the host is handed, with the hook that it runs, if it
/// runs one.
#[derive(Debug, PartialEq, Eq)]
pub struct Callback {
    pub hook: Option<Expr>,
}

/// What the host is handed when it asks a module what it is.
#[derive(Debug, PartialEq, Eq)]
pub struct NifEntry {
    /// The version of the host's interface that the module is built for.
    pub major: i32,
    pub minor: i32,
    /// The name of the module, ended by a NUL.
    pub name: String,
    /// The number of exported functions.
    pub num_of_funcs: usize,
    /// The exported functions: for each the path of its description.
    pub funcs: Vec<String>,
    /// The callback that the host calls when it loads the module. There is
    /// one in every case; it runs the load hook where one is declared.
    pub load: Option<Callback>,
    /// The reload callback; there is none.
    pub reload: Option<Callback>,
    /// The callback that the host calls when it upgrades the module. There
    /// is one only where an upgrade hook is declared.
    pub upgrade: Option<Callback>,
    /// The callback that the host calls when it unloads the module. There
    /// is one only where an unload hook is declared.
    pub unload: Option<Callback>,
    /// The variant of the host that the module is built for, ended by a
    /// NUL.
    pub vm_variant: String,
    pub options: u32,
}

/// The callback that runs `hook`, where there is a hook.
pub open spec fn callback_of(hook: Option<Expr>) -> Option<Callback> {
    match hook {
        Some(hook) => Some(Callback { hook: Some(hook) }),
        None => None,
    }
}

/// Whether `key` is the name of a hook.
pub open spec fn is_allowed(key: Seq<char>) -> bool {
    key == "load"@ || key == "unload"@ || key == "upgrade"@
}

/// The first place at which `options` has the name `key`, if it has it.
pub open spec fn name_index(options: Seq<(String, Expr)>, key: Seq<char>) -> Option<int>
    decreases options.len(),
{
    if options.len() == 0 {
        None
    } else {
        match name_index(options.drop_last(), key) {
            Some(at) => Some(at),
            None => if options.last().0@ == key {
                Some(options.len() - 1)
            } else {
                None
            },
        }
    }
}

/// Whether no name occurs twice in `options`.
pub open spec fn distinct_names(options: Seq<(String, Expr)>) -> bool {
    forall|i: int, j: int|
        0 <= i < j < options.len() ==> (#[trigger] options[i]).0@ != (#[trigger] options[j]).0@
}

/// The options once `key` is given `value`: a name that is there already
/// keeps its place and gets the new value, a new name comes last.
pub open spec fn assigned(options: Seq<(String, Expr)>, key: String, value: Expr) -> Seq<
    (String, Expr),
> {
    match name_index(options, key@) {
        Some(at) => options.update(at, (options[at].0, value)),
        None => options.push((key, value)),
    }
}

/// The options that `items` give, or why they give none. Each name stands
/// once, with the value of its last assignment. An assignment whose left
/// side is not one identifier gives nothing.
pub open spec fn options_of(items: Seq<InitOption>) -> Result<Seq<(String, Expr)>, InitError>
    decreases items.len(),
{
    if items.len() == 0 {
        Ok(Seq::empty())
    } else {
        match options_of(items.drop_last()) {
            Err(e) => Err(e),
            Ok(front) => match items.last() {
                InitOption::Assign { left: Some(key), right } => Ok(assigned(front, key, right)),
                InitOption::Assign { left: None, right } => Ok(front),
                InitOption::Other(complaint) => Err(InitError::NotAnAssignment(complaint)),
            },
        }
    }
}

/// The value of the last of `items` that assigns to the name `key`.
pub open spec fn last_assigned(items: Seq<InitOption>, key: Seq<char>) -> Option<Expr>
    decreases items.len(),
{
    if items.len() == 0 {
        None
    } else {
        match items.last() {
            InitOption::Assign { left: Some(name), right } => if name@ == key {
                Some(right)
            } else {
                last_assigned(items.drop_last(), key)
            },
            _ => last_assigned(items.drop_last(), key),
        }
    }
}

/// The value that `options` give `key`.
pub open spec fn option_value(options: Seq<(String, Expr)>, key: Seq<char>) -> Option<Expr> {
    match name_index(options, key) {
        Some(at) => Some(options[at].1),
        None => None,
    }
}

/// Whether `options` are what `items` give: no name stands twice, and each
/// name has the value of its last assignment.
pub open spec fn gives(items: Seq<InitOption>, options: Seq<(String, Expr)>) -> bool {
    &&& distinct_names(options)
    &&& forall|key: Seq<char>| #[trigger] option_value(options, key) == last_assigned(items, key)
}

/// The first name among `options` that is not the name of a hook.
pub open spec fn first_unsupported(options: Seq<(String, Expr)>) -> Option<String>
    decreases options.len(),
{
    if options.len() == 0 {
        None
    } else {
        match first_unsupported(options.drop_last()) {
            Some(key) => Some(key),
            None => if is_allowed(options.last().0@) {
                None
            } else {
                Some(options.last().0)
            },
        }
    }
}

/// The paths under which the descriptions of `funcs` are found, or why
/// there are none: each function has to be given by a path.
pub open spec fn func_paths(funcs: Seq<Expr>) -> Result<Seq<Seq<char>>, InitError>
    decreases funcs.len(),
{
    if funcs.len() == 0 {
        Ok(Seq::empty())
    } else {
        match func_paths(funcs.drop_last()) {
            Err(e) => Err(e),
            Ok(front) => match funcs.last() {
                Expr::Path(path) => Ok(front.push(path@ + "::FUNC"@)),
                Expr::Other(_) => Err(InitError::ExpectedPath),
            },
        }
    }
}

/// The texts of `paths`, in order.
pub open spec fn texts(paths: Seq<String>) -> Seq<Seq<char>> {
    Seq::new(paths.len(), |k: int| paths[k]@)
}

/// A copy of an expression.
pub fn copy_expr(expr: &Expr) -> (copy: Expr)
    ensures
        copy == *expr,
{
    match expr {
        Expr::Path(text) => Expr::Path(text.clone()),
        Expr::Other(text) => Expr::Other(text.clone()),
    }
}

/// The first place at which `options` has the name `key`, if it has it.
fn find_name(options: &Vec<(String, Expr)>, key: &String) -> (found: Option<usize>)
    ensures
        match name_index(options@, key@) {
            Some(at) => found is Some && found->Some_0 == at && at < options@.len(),
            None => found is None,
        },
{
    let mut i: usize = 0;
    while i < options.len()
        invariant
            i <= options.len(),
            forall|j: int| 0 <= j < i ==> (#[trigger] options@[j]).0@ != key@,
        decreases options.len() - i,
    {
        if options[i].0 == *key {
            proof {
                lemma_name_index_first(options@, key@, i as int);
            }
            return Some(i);
        }
        i += 1;
    }
    proof {
        lemma_name_index_none(options@, key@);
    }
    None
}

/// The value that `options` give `key`.
pub fn get_option(options: &Vec<(String, Expr)>, key: &str) -> (value: Option<Expr>)
    ensures
        value == option_value(options@, key@),
{
    let name = String::from_str(key);
    match find_name(options, &name) {
        Some(at) => Some(copy_expr(&options[at].1)),
        None => None,
    }
}

/// Gives `key` the value `value` among `options`: a name that is there
/// already keeps its place and gets the new value, a new name comes last.
pub fn assign(options: &mut Vec<(String, Expr)>, key: String, value: Expr)
    ensures
        final(options)@ == assigned(old(options)@, key, value),
{
    match find_name(options, &key) {
        Some(at) => {
            let kept = options[at].0.clone();
            options.set(at, (kept, value));
        },
        None => {
            options.push((key, value));
        },
    }
}

/// Reads the options that follow the list of functions. No name stands
/// twice in what it gives, and each name has the value of its last
/// assignment.
///
/// Every option has to be an assignment; `try_parse_options` tells whether
/// each is.
pub fn parse_options(input: &Vec<InitOption>) -> (result: Vec<(String, Expr)>)
    requires
        options_of(input@) is Ok,
    ensures
        result@ == options_of(input@)->Ok_0,
        gives(input@, result@),
{
    match try_parse_options(input) {
        Ok(result) => result,
        Err(_) => unreached(),
    }
}

/// Reads the options that follow the list of functions, as `parse_options`
/// does, or gives the error of the first that is no assignment.
pub fn try_parse_options(input: &Vec<InitOption>) -> (result: Result<
    Vec<(String, Expr)>,
    InitError,
>)
    ensures
        match options_of(input@) {
            Err(e) => result == Err::<Vec<(String, Expr)>, InitError>(e),
            Ok(options) => result is Ok && result->Ok_0@ == options && gives(input@, options),
        },
{
    let mut result: Vec<(String, Expr)> = Vec::new();
    let mut i: usize = 0;
    while i < input.len()
        invariant
            i <= input.len(),
            options_of(input@.take(i as int)) == Ok::<Seq<(String, Expr)>, InitError>(result@),
        decreases input.len() - i,
    {
        proof {
            assert(input@.take(i + 1).drop_last() =~= input@.take(i as int));
        }
        match &input[i] {
            InitOption::Assign { left, right } => {
                if let Some(ident) = left {
                    assign(&mut result, ident.clone(), copy_expr(right));
                }
            },
            InitOption::Other(complaint) => {
                proof {
                    lemma_options_error(input@, i + 1);
                }
                return Err(InitError::NotAnAssignment(complaint.clone()));
            },
        }
        i += 1;
    }
    proof {
        assert(input@.take(i as int) =~= input@);
        lemma_options_give(input@);
    }
    Ok(result)
}

/// The first name among `options` that is not the name of a hook.
fn find_unsupported(options: &Vec<(String, Expr)>) -> (found: Option<String>)
    ensures
        found == first_unsupported(options@),
{
    let mut i: usize = 0;
    proof {
        assert(options@.take(0) =~= Seq::empty());
    }
    while i < options.len()
        invariant
            i <= options.len(),
            first_unsupported(options@.take(i as int)) is None,
        decreases options.len() - i,
    {
        proof {
            assert(options@.take(i + 1).drop_last() =~= options@.take(i as int));
        }
        let key = &options[i].0;
        if !(same_text(key, "load") || same_text(key, "unload") || same_text(key, "upgrade")) {
            proof {
                lemma_unsupported_found(options@, i + 1);
            }
            return Some(key.clone());
        }
        i += 1;
    }
    proof {
        assert(options@.take(i as int) =~= options@);
    }
    None
}

/// Why the declaration of a module with the functions `funcs` and the
/// options `input` is refused, if it is: an option is no assignment, or has
/// a name that is no hook, or a function is no path.
pub open spec fn refusal(funcs: Seq<Expr>, input: Seq<InitOption>) -> Option<InitError> {
    match options_of(input) {
        Err(e) => Some(e),
        Ok(options) => match first_unsupported(options) {
            Some(key) => Some(InitError::UnsupportedOption(key)),
            None => match func_paths(funcs) {
                Err(e) => Some(e),
                Ok(_) => None,
            },
        },
    }
}

/// Checks the declaration of a module with the functions `funcs` and the
/// options `input`, and says why where it is refused. Who is not held to
/// prove it calls this before `InitMacroInput::parse` and
/// `InitMacroInput::into`, and stops where it gives an error.
pub fn check(funcs: &Vec<Expr>, input: &Vec<InitOption>) -> (checked: Result<(), InitError>)
    ensures
        match refusal(funcs@, input@) {
            Some(e) => checked == Err::<(), InitError>(e),
            None => checked is Ok,
        },
{
    let options = match try_parse_options(input) {
        Ok(options) => options,
        Err(e) => {
            return Err(e);
        },
    };
    if let Some(key) = find_unsupported(&options) {
        return Err(InitError::UnsupportedOption(key));
    }
    match try_nif_funcs(funcs) {
        Ok(_) => Ok(()),
        Err(e) => Err(e),
    }
}

impl InitMacroInput {
    /// Puts a declaration together from its name, its functions and the
    /// options that follow them. The options name the hooks: `load`,
    /// `unload` and `upgrade`. A hook that is named more than once is the
    /// last that is named.
    ///
    /// Every option has to be an assignment and no other option may be
    /// named; `try_parse` tells whether that is so.
    pub fn parse(name: String, funcs: Vec<Expr>, input: &Vec<InitOption>) -> (parsed:
        InitMacroInput)
        requires
            options_of(input@) is Ok,
            first_unsupported(options_of(input@)->Ok_0) is None,
        ensures
            parsed == (InitMacroInput {
                name,
                funcs,
                load: last_assigned(input@, "load"@),
                unload: last_assigned(input@, "unload"@),
                upgrade: last_assigned(input@, "upgrade"@),
            }),
    {
        let options = parse_options(input);
        let load = get_option(&options, "load");
        let unload = get_option(&options, "unload");
        let upgrade = get_option(&options, "upgrade");
        InitMacroInput { name, funcs, load, unload, upgrade }
    }

    /// Puts a declaration together as `parse` does, or says why the options
    /// are refused.
    pub fn try_parse(name: String, funcs: Vec<Expr>, input: &Vec<InitOption>) -> (parsed: Result<
        InitMacroInput,
        InitError,
    >)
        ensures
            match options_of(input@) {
                Err(e) => parsed == Err::<InitMacroInput, InitError>(e),
                Ok(options) => match first_unsupported(options) {
                    Some(key) => parsed == Err::<InitMacroInput, InitError>(
                        InitError::UnsupportedOption(key),
                    ),
                    None => parsed == Ok::<InitMacroInput, InitError>(
                        InitMacroInput {
                            name,
                            funcs,
                            load: last_assigned(input@, "load"@),
                            unload: last_assigned(input@, "unload"@),
                            upgrade: last_assigned(input@, "upgrade"@),
                        },
                    ),
                },
            },
    {
        let options = match try_parse_options(input) {
            Ok(options) => options,
            Err(e) => {
                return Err(e);
            },
        };
        if let Some(key) = find_unsupported(&options) {
            return Err(InitError::UnsupportedOption(key));
        }
        Ok(InitMacroInput::parse(name, funcs, input))
    }

    /// What the host is handed for the module declared.
    ///
    /// The host is handed a load callback in every case; it runs the load
    /// hook where one is declared. It is handed an upgrade and an unload
    /// callback only where the hook is declared, and no reload callback.
    ///
    /// Every function has to be given by a path; `try_into` tells whether
    /// each is.
    pub fn into(self) -> (entry: NifEntry)
        requires
            func_paths(self.funcs@) is Ok,
        ensures
            entry.major == NIF_MAJOR_VERSION,
            entry.minor == NIF_MINOR_VERSION,
            entry.name@ == self.name@ + "\0"@,
            entry.num_of_funcs == self.funcs@.len(),
            texts(entry.funcs@) == func_paths(self.funcs@)->Ok_0,
            entry.load == Some(Callback { hook: self.load }),
            entry.reload is None,
            entry.upgrade == callback_of(self.upgrade),
            entry.unload == callback_of(self.unload),
            entry.vm_variant@ == "beam.vanilla\0"@,
            entry.options == 0,
    {
        let num_of_funcs: usize = self.funcs.len();
        let funcs = nif_funcs(&self.funcs);
        let upgrade = match self.upgrade {
            Some(hook) => Some(Callback { hook: Some(hook) }),
            None => None,
        };
        let unload = match self.unload {
            Some(hook) => Some(Callback { hook: Some(hook) }),
            None => None,
        };
        NifEntry {
            major: NIF_MAJOR_VERSION,
            minor: NIF_MINOR_VERSION,
            name: self.name.concat("\0"),
            num_of_funcs,
            funcs,
            load: Some(Callback { hook: self.load }),
            reload: None,
            upgrade,
            unload,
            vm_variant: String::from_str("beam.vanilla\0"),
            options: 0,
        }
    }

    /// What the host is handed for the module declared, as `into` gives it,
    /// or `InitError::ExpectedPath` where a function is not given by a
    /// path.
    pub fn try_into(self) -> (entry: Result<NifEntry, InitError>)
        ensures
            match func_paths(self.funcs@) {
                Err(e) => entry == Err::<NifEntry, InitError>(e),
                Ok(_) => entry is Ok && entry->Ok_0.is_entry_of(self),
            },
    {
        match try_nif_funcs(&self.funcs) {
            Err(e) => Err(e),
            Ok(_) => Ok(self.into()),
        }
    }
}

impl NifEntry {
    /// Whether this is what the host is handed for the module that `input`
    /// declares.
    pub open spec fn is_entry_of(&self, input: InitMacroInput) -> bool {
        &&& func_paths(input.funcs@) is Ok
        &&& self.major == NIF_MAJOR_VERSION
        &&& self.minor == NIF_MINOR_VERSION
        &&& self.name@ == input.name@ + "\0"@
        &&& self.num_of_funcs == input.funcs@.len()
        &&& texts(self.funcs@) == func_paths(input.funcs@)->Ok_0
        &&& self.load == Some(Callback { hook: input.load })
        &&& self.reload is None
        &&& self.upgrade == callback_of(input.upgrade)
        &&& self.unload == callback_of(input.unload)
        &&& self.vm_variant@ == "beam.vanilla\0"@
        &&& self.options == 0
    }
}

/// The paths under which the descriptions of the exported functions are
/// found: that of each function, followed by `::FUNC`, in their order.
///
/// Every function has to be given by a path; `try_nif_funcs` tells whether
/// each is.
pub fn nif_funcs(funcs: &Vec<Expr>) -> (tokens: Vec<String>)
    requires
        func_paths(funcs@) is Ok,
    ensures
        texts(tokens@) == func_paths(funcs@)->Ok_0,
{
    match try_nif_funcs(funcs) {
        Ok(tokens) => tokens,
        Err(_) => unreached(),
    }
}

/// The paths as `nif_funcs` gives them, or `InitError::ExpectedPath` where
/// a function is not given by a path.
pub fn try_nif_funcs(funcs: &Vec<Expr>) -> (tokens: Result<Vec<String>, InitError>)
    ensures
        match func_paths(funcs@) {
            Err(e) => tokens == Err::<Vec<String>, InitError>(e),
            Ok(paths) => tokens is Ok && texts(tokens->Ok_0@) == paths,
        },
{
    let mut tokens: Vec<String> = Vec::new();
    let mut i: usize = 0;
    proof {
        assert(texts(tokens@) =~= Seq::empty());
    }
    while i < funcs.len()
        invariant
            i <= funcs.len(),
            func_paths(funcs@.take(i as int)) == Ok::<Seq<Seq<char>>, InitError>(texts(tokens@)),
        decreases funcs.len() - i,
    {
        proof {
            assert(funcs@.take(i + 1).drop_last() =~= funcs@.take(i as int));
        }
        let ghost before = tokens@;
        match &funcs[i] {
            Expr::Path(path) => {
                let token = path.clone().concat("::FUNC");
                tokens.push(token);
                proof {
                    assert(texts(tokens@) =~= texts(before).push(path@ + "::FUNC"@));
                }
            },
            Expr::Other(_) => {
                proof {
                    lemma_func_paths_error(funcs@, i + 1);
                }
                return Err(InitError::ExpectedPath);
            },
        }
        i += 1;
    }
    proof {
        assert(funcs@.take(i as int) =~= funcs@);
    }
    Ok(tokens)
}

/// What the load callback tells the host, given what the load hook
/// returned, if the module has one: 0 lets the module load, anything else
/// stops it. A module without a load hook loads.
pub fn handle_nif_init_call(outcome: Option<bool>) -> (status: i32)
    ensures
        status == (if outcome == Some(false) {
            1i32
        } else {
            0i32
        }),
{
    match outcome {
        Some(loaded) => if loaded {
            0
        } else {
            1
        },
        None => 0,
    }
}

/// The names that are registered once each of `more` has been registered,
/// in order, with a registry that holds `names`: a name that is there
/// already is not added again.
pub open spec fn registered(names: Seq<Seq<char>>, more: Seq<Seq<char>>) -> Seq<Seq<char>>
    decreases more.len(),
{
    if more.len() == 0 {
        names
    } else {
        let front = registered(names, more.drop_last());
        if place_of(front, more.last()) is Some {
            front
        } else {
            front.push(more.last())
        }
    }
}

/// What the upgrade callback tells the host, given what the upgrade hook
/// returned: 0 lets the module be upgraded, anything else stops it.
pub fn handle_nif_upgrade_call(outcome: Option<bool>) -> (status: i32)
    ensures
        status == (if outcome == Some(false) {
            1i32
        } else {
            0i32
        }),
{
    handle_nif_init_call(outcome)
}

/// A load hook: registers the resource types named `resources`, in order,
/// and tells whether the module may load. It may unless a type cannot be
/// registered, which is when the registry takes no registrations any more.
pub fn on_load(registry: &mut Registry, resources: &Vec<String>) -> (loaded: bool)
    ensures
        loaded <==> old(registry)@.loading || resources@.len() == 0,
        final(registry)@.loading == old(registry)@.loading,
        !loaded ==> final(registry)@ == old(registry)@,
        loaded ==> final(registry)@.names == registered(
            old(registry)@.names,
            texts(resources@),
        ),
        loaded ==> final(registry)@.claimed == old(registry)@.claimed + Seq::new(
            (final(registry)@.names.len() - old(registry)@.names.len()) as nat,
            |k: int| false,
        ),
{
    let mut i: usize = 0;
    proof {
        assert(texts(resources@).take(0) =~= Seq::empty());
        assert(registry@.claimed =~= old(registry)@.claimed + Seq::new(0, |k: int| false));
    }
    while i < resources.len()
        invariant
            i <= resources.len(),
            registry@.loading == old(registry)@.loading,
            i > 0 ==> old(registry)@.loading,
            registry@.names.len() >= old(registry)@.names.len(),
            registry@.claimed == old(registry)@.claimed + Seq::new(
                (registry@.names.len() - old(registry)@.names.len()) as nat,
                |k: int| false,
            ),
            registry@.names == registered(
                old(registry)@.names,
                texts(resources@).take(i as int),
            ),
        decreases resources.len() - i,
    {
        proof {
            assert(texts(resources@).take(i + 1).drop_last() =~= texts(resources@).take(
                i as int,
            ));
        }
        match registry.register(resources[i].as_str()) {
            Ok(_) => {
                proof {
                    assert(registry@.claimed =~= old(registry)@.claimed + Seq::new(
                        (registry@.names.len() - old(registry)@.names.len()) as nat,
                        |k: int| false,
                    ));
                }
            },
            Err(_) => {
                return false;
            },
        }
        i += 1;
    }
    proof {
        assert(texts(resources@).take(i as int) =~= texts(resources@));
    }
    true
}

/// Where a name stands at `at` and nowhere before, `at` is its place.
proof fn lemma_name_index_first(options: Seq<(String, Expr)>, key: Seq<char>, at: int)
    requires
        0 <= at < options.len(),
        options[at].0@ == key,
        forall|k: int| 0 <= k < at ==> (#[trigger] options[k]).0@ != key,
    ensures
        name_index(options, key) == Some(at),
    decreases options.len(),
{
    if at < options.len() - 1 {
        lemma_name_index_first(options.drop_last(), key, at);
    } else {
        lemma_name_index_none(options.drop_last(), key);
    }
}

/// A name that stands nowhere has no place.
proof fn lemma_name_index_none(options: Seq<(String, Expr)>, key: Seq<char>)
    requires
        forall|k: int| 0 <= k < options.len() ==> (#[trigger] options[k]).0@ != key,
    ensures
        name_index(options, key) is None,
    decreases options.len(),
{
    if options.len() > 0 {
        lemma_name_index_none(options.drop_last(), key);
    }
}

/// The place of a name is a place where it stands, with none before it.
proof fn lemma_name_index(options: Seq<(String, Expr)>, key: Seq<char>)
    ensures
        match name_index(options, key) {
            Some(at) => 0 <= at < options.len() && options[at].0@ == key && forall|k: int|
                0 <= k < at ==> (#[trigger] options[k]).0@ != key,
            None => forall|k: int| 0 <= k < options.len() ==> (#[trigger] options[k]).0@ != key,
        },
    decreases options.len(),
{
    if options.len() > 0 {
        let front = options.drop_last();
        lemma_name_index(front, key);
        match name_index(front, key) {
            Some(at) => {
                assert(options[at] == front[at]);
                assert forall|k: int| 0 <= k < at implies (#[trigger] options[k]).0@ != key by {
                    assert(options[k] == front[k]);
                }
            },
            None => {
                assert forall|k: int| 0 <= k < options.len() - 1 implies (
                #[trigger] options[k]).0@ != key by {
                    assert(options[k] == front[k]);
                }
            },
        }
    }
}

/// Giving a name a value leaves every name once, gives that name the
/// value, and leaves the other names their values.
proof fn lemma_assigned(options: Seq<(String, Expr)>, key: String, value: Expr)
    requires
        distinct_names(options),
    ensures
        distinct_names(assigned(options, key, value)),
        forall|name: Seq<char>| #[trigger]
            option_value(assigned(options, key, value), name) == if name == key@ {
                Some(value)
            } else {
                option_value(options, name)
            },
{
    let after = assigned(options, key, value);
    lemma_name_index(options, key@);
    assert forall|i: int| 0 <= i < options.len() implies (#[trigger] after[i]).0@
        == options[i].0@ by {}
    assert forall|name: Seq<char>| #[trigger]
        option_value(after, name) == if name == key@ {
            Some(value)
        } else {
            option_value(options, name)
        } by {
        lemma_name_index(options, name);
        match name_index(options, name) {
            Some(at) => {
                assert forall|k: int| 0 <= k < at implies (#[trigger] after[k]).0@ != name by {
                    assert(options[k].0@ != name);
                }
                assert(after[at].0@ == options[at].0@);
                lemma_name_index_first(after, name, at);
            },
            None => {
                if name == key@ {
                    assert forall|k: int| 0 <= k < options.len() implies (
                    #[trigger] after[k]).0@ != name by {
                        assert(options[k].0@ != name);
                    }
                    lemma_name_index_first(after, name, options.len() as int);
                } else {
                    assert forall|k: int| 0 <= k < after.len() implies (#[trigger] after[k]).0@
                        != name by {
                        if k < options.len() {
                            assert(options[k].0@ != name);
                        }
                    }
                    lemma_name_index_none(after, name);
                }
            },
        }
    }
    assert forall|i: int, j: int| 0 <= i < j < after.len() implies (#[trigger] after[i]).0@ != (
    #[trigger] after[j]).0@ by {
        if j < options.len() {
            assert(options[i].0@ != options[j].0@);
        } else {
            assert(options[i].0@ != key@);
        }
    }
}

/// What a list of assignments gives holds no name twice, and for each name
/// the value of its last assignment.
pub proof fn lemma_options_give(items: Seq<InitOption>)
    requires
        options_of(items) is Ok,
    ensures
        gives(items, options_of(items)->Ok_0),
    decreases items.len(),
{
    if items.len() == 0 {
        assert forall|key: Seq<char>| #[trigger]
            option_value(Seq::<(String, Expr)>::empty(), key) == last_assigned(items, key) by {}
    } else {
        let front = options_of(items.drop_last())->Ok_0;
        lemma_options_give(items.drop_last());
        match items.last() {
            InitOption::Assign { left: Some(key), right } => {
                lemma_assigned(front, key, right);
                assert forall|name: Seq<char>| #[trigger]
                    option_value(assigned(front, key, right), name) == last_assigned(
                        items,
                        name,
                    ) by {
                    assert(option_value(front, name) == last_assigned(items.drop_last(), name));
                }
            },
            _ => {
                assert forall|name: Seq<char>| #[trigger]
                    option_value(front, name) == last_assigned(items, name) by {
                    assert(option_value(front, name) == last_assigned(items.drop_last(), name));
                }
            },
        }
    }
}

/// An error among the first `n` options is the error of all of them.
proof fn lemma_options_error(items: Seq<InitOption>, n: int)
    requires
        0 <= n <= items.len(),
        options_of(items.take(n)) is Err,
    ensures
        options_of(items) == options_of(items.take(n)),
    decreases items.len() - n,
{
    if n < items.len() {
        assert(items.take(n + 1).drop_last() =~= items.take(n));
        lemma_options_error(items, n + 1);
    } else {
        assert(items.take(n) =~= items);
    }
}

/// A name that is not known among the first `n` options is the first such
/// name among all of them.
proof fn lemma_unsupported_found(options: Seq<(String, Expr)>, n: int)
    requires
        0 <= n <= options.len(),
        first_unsupported(options.take(n)) is Some,
    ensures
        first_unsupported(options) == first_unsupported(options.take(n)),
    decreases options.len() - n,
{
    if n < options.len() {
        assert(options.take(n + 1).drop_last() =~= options.take(n));
        lemma_unsupported_found(options, n + 1);
    } else {
        assert(options.take(n) =~= options);
    }
}

/// An error among the first `n` functions is the error of all of them.
proof fn lemma_func_paths_error(funcs: Seq<Expr>, n: int)
    requires
        0 <= n <= funcs.len(),
        func_paths(funcs.take(n)) is Err,
    ensures
        func_paths(funcs) == func_paths(funcs.take(n)),
    decreases funcs.len() - n,
{
    if n < funcs.len() {
        assert(funcs.take(n + 1).drop_last() =~= funcs.take(n));
        lemma_func_paths_error(funcs, n + 1);
    } else {
        assert(funcs.take(n) =~= funcs);
    }
}

} // verus!
