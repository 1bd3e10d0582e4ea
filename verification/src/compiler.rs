//! The compiler core: the scope stack, the variable resolver and the output
//! state that the block helpers and the top-level driver write into.
//!
//! Every emitting operation is pinned by a spec function over [`RustModel`]:
//! the resolver against [`resolve_m`] and [`write_var_m`], the scope walk
//! against [`find_scope_m`], and the block transitions against
//! [`handle_else_m`] and [`handle_close_m`].

use vstd::prelude::*;
use vstd::string::*;
use crate::block::{BlockFactory, Each, IfOrUnless, IfSome, With};
use crate::error::{ErrorKind, ParseError, ParseResult};
use crate::expression::{close_expr, Expression, ExpressionType};
use crate::expression_tokenizer::{first_token_of, lemma_scan_token_fits, scan_token, Token,
    TokenModel, TokenType, TokenTypeModel};
use crate::text::{dec_str, find_from, head_not_ws, is_match_at, lemma_trim_back_head,
    lemma_trim_back_len, lemma_trim_front_head, lemma_trim_front_len, match_at, str_eq, trim_back,
    trim_front, usize_string};

verus! {

// ---------------------------------------------------------------------------
// Local bindings
// ---------------------------------------------------------------------------

/// The local binding a block declares.
pub enum Local {
    /// A named local: `as |name|`.
    As(String),
    /// The implicit `this` binding.
    This,
    /// No binding.
    Unbound,
}

/// The mathematical value of a [`Local`].
#[verifier::ext_equal]
pub enum LocalModel {
    As(Seq<char>),
    This,
    Unbound,
}

impl View for Local {
    type V = LocalModel;

    open spec fn view(&self) -> LocalModel {
        match self {
            Local::As(name) => LocalModel::As(name@),
            Local::This => LocalModel::This,
            Local::Unbound => LocalModel::Unbound,
        }
    }
}

/// The name a local binding renders as, before its depth suffix.
pub open spec fn local_name(l: LocalModel) -> Seq<char> {
    match l {
        LocalModel::As(name) => name,
        _ => "this"@,
    }
}

// ---------------------------------------------------------------------------
// Output state
// ---------------------------------------------------------------------------

/// The generated code together with the capability names it requires and
/// the top-level variable names it references.
#[derive(Debug)]
pub struct Rust {
    /// The capability names (display, escaping, boolean coercion) the
    /// generated code needs, in first-use order, without duplicates.
    pub using: Vec<String>,
    /// The generated code.
    pub code: String,
    /// The root-relative variable paths the code references, in first-use
    /// order, without duplicates.
    pub top_level_vars: Vec<String>,
}

/// The mathematical value of a [`Rust`] output state.
#[verifier::ext_equal]
pub struct RustModel {
    pub using: Seq<Seq<char>>,
    pub code: Seq<char>,
    pub top_level_vars: Seq<Seq<char>>,
}

impl View for Rust {
    type V = RustModel;

    open spec fn view(&self) -> RustModel {
        RustModel {
            using: self.using.deep_view(),
            code: self.code@,
            top_level_vars: self.top_level_vars.deep_view(),
        }
    }
}

/// `ru` with `s` appended to its code.
pub open spec fn push_code(ru: RustModel, s: Seq<char>) -> RustModel {
    RustModel { code: ru.code + s, ..ru }
}

/// `us` with `name` appended unless already present.
pub open spec fn insert_unique(us: Seq<Seq<char>>, name: Seq<char>) -> Seq<Seq<char>> {
    if us.contains(name) {
        us
    } else {
        us.push(name)
    }
}

/// Appends `name` to the strings `v` unless an equal string is present.
fn push_unique(v: &mut Vec<String>, name: &str)
    ensures
        final(v).deep_view() == insert_unique(old(v).deep_view(), name@),
{
    let len = v.len();
    let mut i: usize = 0;
    while i < len
        invariant
            0 <= i <= len,
            len == v@.len(),
            *v == *old(v),
            forall|k: int| 0 <= k < i ==> v.deep_view()[k] != name@,
        decreases len - i,
    {
        assert(v.deep_view()[i as int] == v@[i as int]@);
        if str_eq(v[i].as_str(), name) {
            assert(v.deep_view().contains(name@));
            return ;
        }
        i += 1;
    }
    assert(!v.deep_view().contains(name@));
    v.push(String::from_str(name));
    assert(final(v).deep_view() =~= old(v).deep_view().push(name@));
}

impl Rust {
    /// A fresh, empty output state.
    pub fn new() -> (r: Self)
        ensures
            r@.using.len() == 0 && r@.code.len() == 0 && r@.top_level_vars.len() == 0,
    {
        let r = Rust { using: Vec::new(), code: String::new(), top_level_vars: Vec::new() };
        assert(r@.using =~= Seq::<Seq<char>>::empty());
        assert(r@.top_level_vars =~= Seq::<Seq<char>>::empty());
        r
    }

    /// Records that the generated code needs the named capability.
    pub fn insert_use(&mut self, name: &str)
        ensures
            final(self)@ == (RustModel { using: insert_unique(old(self)@.using, name@), ..old(
                self,
            )@ }),
    {
        push_unique(&mut self.using, name);
        assert(final(self)@ =~= (RustModel {
            using: insert_unique(old(self)@.using, name@),
            ..old(self)@
        }));
    }

    /// Records a referenced top-level variable path.
    fn record_top_level(&mut self, name: &str)
        ensures
            final(self)@ == (RustModel {
                top_level_vars: insert_unique(old(self)@.top_level_vars, name@),
                ..old(self)@
            }),
    {
        push_unique(&mut self.top_level_vars, name);
        assert(final(self)@ =~= (RustModel {
            top_level_vars: insert_unique(old(self)@.top_level_vars, name@),
            ..old(self)@
        }));
    }

    /// A formatter for the `use` statement importing the needed capability
    /// names from the given runtime crate.
    pub fn uses<'a>(&'a self, crate_name: &'a str) -> (r: Uses<'a>)
        ensures
            r.uses@ == self.using@ && r.crate_name@ == crate_name@,
    {
        Uses { uses: &self.using, crate_name }
    }
}

/// The body of the braced list of a `use` statement with several items.
pub open spec fn comma_list(us: Seq<Seq<char>>) -> Seq<char>
    decreases us.len(),
{
    if us.len() == 0 {
        Seq::empty()
    } else {
        ","@ + us[0] + comma_list(us.subrange(1, us.len() as int))
    }
}

/// The `use` statement importing the capability names from `crate_name`:
/// empty for no names, a plain path for one, a braced list otherwise.
pub open spec fn uses_string(us: Seq<Seq<char>>, crate_name: Seq<char>) -> Seq<char> {
    if us.len() == 0 {
        Seq::empty()
    } else if us.len() == 1 {
        "use "@ + crate_name + "::"@ + us[0]
    } else {
        "use "@ + crate_name + "::"@ + "{"@ + us[0] + comma_list(us.subrange(1, us.len() as int))
            + "}"@
    }
}

/// Helper for formatting the `use` statement of the needed capabilities.
pub struct Uses<'a> {
    pub uses: &'a Vec<String>,
    pub crate_name: &'a str,
}

impl<'a> Uses<'a> {
    /// The `use` statement as text.
    pub fn to_string(&self) -> (r: String)
        ensures
            r@ == uses_string(self.uses.deep_view(), self.crate_name@),
    {
        let n = self.uses.len();
        if n == 0 {
            let r = String::new();
            assert(r@ =~= uses_string(self.uses.deep_view(), self.crate_name@));
            return r;
        }
        let mut r = String::from_str("use ");
        r.append(self.crate_name);
        r.append("::");
        assert(self.uses.deep_view()[0] == self.uses@[0]@);
        if n == 1 {
            r.append(self.uses[0].as_str());
            return r;
        }
        r.append("{");
        r.append(self.uses[0].as_str());
        let ghost us = self.uses.deep_view();
        let mut i: usize = 1;
        while i < n
            invariant
                1 <= i <= n,
                n == self.uses@.len(),
                us == self.uses.deep_view(),
                r@ + comma_list(us.subrange(i as int, n as int)) + "}"@ == uses_string(
                    us,
                    self.crate_name@,
                ),
            decreases n - i,
        {
            assert(self.uses.deep_view()[i as int] == self.uses@[i as int]@);
            r.append(",");
            r.append(self.uses[i].as_str());
            proof {
                let tail = us.subrange(i as int, n as int);
                assert(tail.subrange(1, tail.len() as int) =~= us.subrange(i + 1, n as int));
                assert(tail[0] == us[i as int]);
            }
            i += 1;
        }
        assert(comma_list(us.subrange(i as int, n as int)) =~= Seq::<char>::empty());
        r.append("}");
        r
    }
}

// ---------------------------------------------------------------------------
// Blocks and scopes
// ---------------------------------------------------------------------------

/// The root context of a compile: exposes the configured root expression.
pub struct Root {
    pub this: Option<&'static str>,
}

/// One block behaviour: the closed set of control-flow constructs a block
/// helper can open.
pub enum Block {
    /// The root context.
    Root(Root),
    /// `if`/`unless`.
    Cond(IfOrUnless),
    /// `if_some`/`if_some_ref`.
    Opt(IfSome),
    /// `with`/`with_ref`.
    Ctx(With),
    /// `each`/`each_ref`.
    Loop(Each),
}

/// The mathematical value of a [`Block`].
#[verifier::ext_equal]
pub enum BlockModel {
    Root(Option<Seq<char>>),
    Cond,
    Opt(LocalModel),
    Ctx(LocalModel),
    Loop { local: LocalModel, indexer: Option<Seq<char>>, has_else: bool },
}

impl View for Block {
    type V = BlockModel;

    open spec fn view(&self) -> BlockModel {
        match self {
            Block::Root(r) => BlockModel::Root(
                match r.this {
                    Some(s) => Some(s@),
                    None => None,
                },
            ),
            Block::Cond(_) => BlockModel::Cond,
            Block::Opt(b) => BlockModel::Opt(b.local@),
            Block::Ctx(b) => BlockModel::Ctx(b.local@),
            Block::Loop(b) => BlockModel::Loop {
                local: b.local@,
                indexer: match b.indexer {
                    Some(ref s) => Some(s@),
                    None => None,
                },
                has_else: b.has_else,
            },
        }
    }
}

/// The `this` expression a block exposes: only the root has one.
pub open spec fn block_this(b: BlockModel) -> Option<Seq<char>> {
    match b {
        BlockModel::Root(t) => t,
        _ => None,
    }
}

/// The local binding a block declares.
pub open spec fn block_local(b: BlockModel) -> LocalModel {
    match b {
        BlockModel::Opt(l) => l,
        BlockModel::Ctx(l) => l,
        BlockModel::Loop { local, .. } => local,
        _ => LocalModel::Unbound,
    }
}

/// The increment statement of a loop's index counter, if one is allocated.
pub open spec fn indexer_inc(ix: Option<Seq<char>>) -> Seq<char> {
    match ix {
        Some(name) => name + "+=1;"@,
        None => Seq::empty(),
    }
}

/// What closing a block appends to the code.
pub open spec fn handle_close_m(b: BlockModel, ru: RustModel) -> RustModel {
    match b {
        BlockModel::Loop { local, indexer, has_else } => {
            if has_else {
                push_code(ru, "}}"@)
            } else {
                push_code(ru, indexer_inc(indexer) + "}"@)
            }
        },
        _ => push_code(ru, "}"@),
    }
}

/// What closing the innermost block yields: the shortened stack and the
/// closing emission, or the failure when no block is open.
pub open spec fn close_m(stack: Seq<ScopeModel>, ru: RustModel) -> Result<
    (Seq<ScopeModel>, RustModel),
    ErrorKind,
> {
    if stack.len() <= 1 {
        Err(ErrorKind::MismatchedBlockClose)
    } else {
        Ok((stack.drop_last(), handle_close_m(stack.last().opened, ru)))
    }
}

/// What an `else` under a block appends, or that the block has no else.
pub open spec fn handle_else_m(b: BlockModel, ru: RustModel) -> Result<RustModel, ErrorKind> {
    match b {
        BlockModel::Cond => Ok(push_code(ru, "}else{"@)),
        BlockModel::Opt(_) => Ok(push_code(ru, "}else{"@)),
        BlockModel::Loop { local, indexer, has_else } => Ok(
            push_code(ru, indexer_inc(indexer) + "} if empty {"@),
        ),
        _ => Err(ErrorKind::ElseNotAllowed),
    }
}

/// What a private variable renders as under a block: only a loop supplies
/// `index`, `key` and `value`.
pub open spec fn resolve_private_m(b: BlockModel, depth: int, name: Seq<char>) -> Result<
    Seq<char>,
    ErrorKind,
> {
    match b {
        BlockModel::Loop { local, indexer, has_else } => {
            if name == "index"@ {
                match indexer {
                    Some(ix) => Ok(ix),
                    None => Err(ErrorKind::UnknownPrivateVariable),
                }
            } else if name == "key"@ {
                Ok(with_depth(local_name(local), depth) + ".0"@)
            } else if name == "value"@ {
                Ok(with_depth(local_name(local), depth) + ".1"@)
            } else {
                Err(ErrorKind::UnknownPrivateVariable)
            }
        },
        _ => Err(ErrorKind::UnknownPrivateVariable),
    }
}

impl Block {
    /// Emits the code closing this block.
    pub fn handle_close(&self, rust: &mut Rust)
        ensures
            final(rust)@ == handle_close_m(self@, old(rust)@),
    {
        match self {
            Block::Loop(each) => each.handle_close(rust),
            _ => rust.code.append("}"),
        }
    }

    /// Emits the branch flip for an `else`, or fails if this block has none.
    pub fn handle_else(&self, expression: &Expression<'_>, rust: &mut Rust) -> (r: ParseResult<
        (),
    >)
        ensures
            match r {
                Ok(()) => handle_else_m(self@, old(rust)@) == Ok::<RustModel, ErrorKind>(
                    final(rust)@,
                ),
                Err(pe) => handle_else_m(self@, old(rust)@) == Err::<RustModel, ErrorKind>(
                    pe.kind,
                ) && final(rust)@ == old(rust)@,
            },
    {
        match self {
            Block::Cond(b) => {
                b.handle_else(rust);
                Ok(())
            },
            Block::Opt(b) => {
                b.handle_else(rust);
                Ok(())
            },
            Block::Loop(b) => {
                b.handle_else(rust);
                Ok(())
            },
            _ => Err(
                ParseError::new(
                    ErrorKind::ElseNotAllowed,
                    "else not expected here",
                    expression.around(),
                ),
            ),
        }
    }

    /// Renders a private variable against this block.
    pub fn resolve_private(
        &self,
        depth: usize,
        expression: &Expression<'_>,
        name: &str,
        rust: &mut Rust,
    ) -> (r: ParseResult<()>)
        ensures
            match r {
                Ok(()) => resolve_private_m(self@, depth as int, name@) is Ok && final(rust)@
                    == push_code(old(rust)@, resolve_private_m(self@, depth as int, name@)->Ok_0),
                Err(pe) => resolve_private_m(self@, depth as int, name@) == Err::<
                    Seq<char>,
                    ErrorKind,
                >(pe.kind) && final(rust)@ == old(rust)@,
            },
    {
        match self {
            Block::Loop(each) => each.resolve_private(depth, expression, name, rust),
            _ => {
                let mut message = String::from_str(expression.content);
                message.append(" not expected ");
                Err(
                    ParseError::new(
                        ErrorKind::UnknownPrivateVariable,
                        message.as_str(),
                        expression.around(),
                    ),
                )
            },
        }
    }
}

/// One open block context.
pub struct Scope {
    /// The block that opened this scope.
    pub opened: Block,
    /// The position of this scope in the open stack.
    pub depth: usize,
}

/// The mathematical value of a [`Scope`].
#[verifier::ext_equal]
pub struct ScopeModel {
    pub opened: BlockModel,
    pub depth: int,
}

impl View for Scope {
    type V = ScopeModel;

    open spec fn view(&self) -> ScopeModel {
        ScopeModel { opened: self.opened@, depth: self.depth as int }
    }
}

// ---------------------------------------------------------------------------
// Variable shapes
// ---------------------------------------------------------------------------

/// A caller-declared shape hint for a top-level variable, consulted when
/// `if` or `with` opens: an optional subject selects the option-aware
/// behaviour instead of the boolean or plain one.
#[derive(Clone, Copy, Debug, PartialEq, Eq, Structural)]
pub enum VariableShape {
    /// The variable holds an option-like value.
    Optional,
    /// The variable holds a plain value.
    Plain,
}

/// The mathematical value of a shape map.
pub open spec fn shapes_view(v: &Vec<(String, VariableShape)>) -> Seq<(Seq<char>, VariableShape)> {
    v@.map_values(|e: (String, VariableShape)| (e.0@, e.1))
}

/// The shape declared for `name`, if any; a later declaration wins.
pub open spec fn shape_lookup(m: Seq<(Seq<char>, VariableShape)>, name: Seq<char>) -> Option<
    VariableShape,
>
    decreases m.len(),
{
    if m.len() == 0 {
        None
    } else if m[m.len() - 1].0 == name {
        Some(m[m.len() - 1].1)
    } else {
        shape_lookup(m.subrange(0, m.len() - 1), name)
    }
}

/// Looks the declared shape of a variable up.
pub fn shape_get(v: &Vec<(String, VariableShape)>, name: &str) -> (r: Option<VariableShape>)
    ensures
        r == shape_lookup(shapes_view(v), name@),
{
    let n = v.len();
    let mut i = n;
    proof {
        assert(shapes_view(v).subrange(0, n as int) =~= shapes_view(v));
    }
    while i > 0
        invariant
            0 <= i <= n,
            n == v@.len(),
            shape_lookup(shapes_view(v), name@) == shape_lookup(
                shapes_view(v).subrange(0, i as int),
                name@,
            ),
        decreases i,
    {
        proof {
            let m = shapes_view(v).subrange(0, i as int);
            assert(m[i - 1] == shapes_view(v)[i - 1]);
            assert(shapes_view(v)[i - 1] == (v@[i - 1].0@, v@[i - 1].1));
            assert(m.subrange(0, m.len() - 1) =~= shapes_view(v).subrange(0, i - 1));
        }
        if str_eq(v[i - 1].0.as_str(), name) {
            return Some(v[i - 1].1);
        }
        i -= 1;
    }
    proof {
        assert(shapes_view(v).subrange(0, 0) =~= Seq::<(Seq<char>, VariableShape)>::empty());
    }
    None
}

// ---------------------------------------------------------------------------
// The block helper registry
// ---------------------------------------------------------------------------

/// The registry mapping helper names to block factories, looked up on each
/// block open; a later registration under the same name wins.
pub struct BlockMap {
    pub entries: Vec<(String, BlockFactory)>,
}

/// The mathematical value of a [`BlockMap`].
pub open spec fn map_entries(m: &BlockMap) -> Seq<(Seq<char>, BlockFactory)> {
    m.entries@.map_values(|e: (String, BlockFactory)| (e.0@, e.1))
}

/// The factory registered under `name`, if any; a later registration
/// wins, as it would in a hash map.
pub open spec fn map_lookup(m: Seq<(Seq<char>, BlockFactory)>, name: Seq<char>) -> Option<
    BlockFactory,
>
    decreases m.len(),
{
    if m.len() == 0 {
        None
    } else if m[m.len() - 1].0 == name {
        Some(m[m.len() - 1].1)
    } else {
        map_lookup(m.subrange(0, m.len() - 1), name)
    }
}

impl BlockMap {
    /// An empty registry.
    pub fn new() -> (r: Self)
        ensures
            map_entries(&r).len() == 0,
    {
        BlockMap { entries: Vec::new() }
    }

    /// Registers a factory under a helper name.
    pub fn insert(&mut self, name: &str, factory: BlockFactory)
        ensures
            map_entries(final(self)) == map_entries(old(self)).push((name@, factory)),
    {
        self.entries.push((String::from_str(name), factory));
        assert(map_entries(final(self)) =~= map_entries(old(self)).push((name@, factory)));
    }

    /// Looks a helper name up.
    pub fn get(&self, name: &str) -> (r: Option<BlockFactory>)
        ensures
            r == map_lookup(map_entries(self), name@),
    {
        let n = self.entries.len();
        let mut i = n;
        proof {
            assert(map_entries(self).subrange(0, n as int) =~= map_entries(self));
        }
        while i > 0
            invariant
                0 <= i <= n,
                n == self.entries@.len(),
                map_lookup(map_entries(self), name@) == map_lookup(
                    map_entries(self).subrange(0, i as int),
                    name@,
                ),
            decreases i,
        {
            proof {
                let m = map_entries(self).subrange(0, i as int);
                assert(m[i - 1] == map_entries(self)[i - 1]);
                assert(map_entries(self)[i - 1] == (self.entries@[i - 1].0@, self.entries@[i
                    - 1].1));
                assert(m.subrange(0, m.len() - 1) =~= map_entries(self).subrange(0, i - 1));
            }
            if str_eq(self.entries[i - 1].0.as_str(), name) {
                return Some(self.entries[i - 1].1);
            }
            i -= 1;
        }
        proof {
            assert(map_entries(self).subrange(0, 0) =~= Seq::<
                (Seq<char>, BlockFactory),
            >::empty());
        }
        None
    }
}

// ---------------------------------------------------------------------------
// Scope resolution
// ---------------------------------------------------------------------------

/// A variable name carrying its depth suffix: `name_depth`.
pub open spec fn with_depth(var: Seq<char>, depth: int) -> Seq<char> {
    var + "_"@ + dec_str(depth)
}

/// Appends a variable name with its depth suffix to the code.
pub fn append_with_depth(depth: usize, var: &str, rust: &mut Rust)
    ensures
        final(rust)@ == push_code(old(rust)@, with_depth(var@, depth as int)),
{
    rust.code.append(var);
    rust.code.append("_");
    let d = usize_string(depth);
    rust.code.append(d.as_str());
    assert(final(rust)@ =~= push_code(old(rust)@, with_depth(var@, depth as int)));
}

/// How a named local matches a variable path: exactly, or as a `name.`
/// prefix; the rendering carries the local's depth suffix.
pub open spec fn local_match(depth: int, var: Seq<char>, local: Seq<char>) -> Option<Seq<char>> {
    if match_at(var, local, 0) {
        if var.len() > local.len() {
            if var[local.len() as int] != '.' {
                None
            } else {
                Some(with_depth(local, depth) + var.subrange(local.len() as int, var.len() as int))
            }
        } else {
            Some(with_depth(local, depth))
        }
    } else {
        None
    }
}

/// What a block's local binding renders a variable path as, if it matches.
pub open spec fn local_emit(b: BlockModel, depth: int, var: Seq<char>) -> Option<Seq<char>> {
    match block_local(b) {
        LocalModel::As(l) => local_match(depth, var, l),
        LocalModel::This => Some(
            "this_"@ + dec_str(depth) + if var != "this"@ {
                "."@ + var
            } else {
                Seq::empty()
            },
        ),
        LocalModel::Unbound => None,
    }
}

/// What resolving a variable path against the scope at depth `d` emits,
/// and which top-level path it records when the walk reaches the root.
pub open spec fn resolve_var_m(stack: Seq<ScopeModel>, var: Seq<char>, d: int, ru: RustModel)
    -> RustModel
    decreases d,
{
    if d <= 0 {
        let ru1 = RustModel {
            top_level_vars: insert_unique(ru.top_level_vars, var),
            ..ru
        };
        match block_this(stack[0].opened) {
            Some(t) => push_code(ru1, t + "."@ + var),
            None => push_code(ru1, var),
        }
    } else {
        let scope = stack[d];
        match local_emit(scope.opened, d, var) {
            Some(code) => push_code(ru, code),
            None => match block_this(scope.opened) {
                Some(t) => {
                    let ru1 = resolve_var_m(stack, t, d - 1, ru);
                    if var != t {
                        push_code(ru1, "."@ + var)
                    } else {
                        ru1
                    }
                },
                None => resolve_var_m(stack, var, d - 1, ru),
            },
        }
    }
}

/// Which scope a variable path resolves against: each leading `../` walks
/// one scope outward; walking past the root fails.
pub open spec fn find_scope_from(stack: Seq<ScopeModel>, var: Seq<char>, d: int) -> Result<
    (Seq<char>, int),
    ErrorKind,
>
    decreases var.len(),
{
    if match_at(var, "../"@, 0) {
        if d <= 0 {
            Err(ErrorKind::ScopeNotFound)
        } else {
            proof {
                reveal_strlit("../");
            }
            find_scope_from(stack, var.subrange(3, var.len() as int), d - 1)
        }
    } else {
        Ok((var, d))
    }
}

/// Which scope a variable path resolves against, starting innermost.
pub open spec fn find_scope_m(stack: Seq<ScopeModel>, var: Seq<char>) -> Result<
    (Seq<char>, int),
    ErrorKind,
> {
    find_scope_from(stack, var, stack.len() - 1)
}

// ---------------------------------------------------------------------------
// The resolver
// ---------------------------------------------------------------------------

/// What writing one token emits: a private variable is rendered by its
/// block, a variable by the scope walk, a literal verbatim, and a
/// sub-expression by resolving its inner content.
pub open spec fn write_var_m(
    stack: Seq<ScopeModel>,
    outer: Seq<char>,
    t: TokenModel,
    ru: RustModel,
) -> Result<RustModel, ErrorKind>
    decreases outer.len(), 1int, 0int,
        when t.token_type is SubExpression ==> t.value.len() + 2 <= outer.len()
{
    match t.token_type {
        TokenTypeModel::PrivateVariable => match find_scope_m(stack, t.value) {
            Err(k) => Err(k),
            Ok((name, d)) => match resolve_private_m(stack[d].opened, d, name) {
                Err(k) => Err(k),
                Ok(code) => Ok(push_code(ru, code)),
            },
        },
        TokenTypeModel::Variable => match find_scope_m(stack, t.value) {
            Err(k) => Err(k),
            Ok((name, d)) => Ok(resolve_var_m(stack, name, d, ru)),
        },
        TokenTypeModel::Literal => Ok(push_code(ru, t.value)),
        TokenTypeModel::SubExpression(_) => resolve_m(stack, ""@, t.value, ""@, ru),
    }
}

/// What resolving an expression's content emits: its prefix, then the
/// rendering of its first token (alone, as a helper call, or as a
/// sub-expression), then its postfix.
pub open spec fn resolve_m(
    stack: Seq<ScopeModel>,
    prefix: Seq<char>,
    content: Seq<char>,
    postfix: Seq<char>,
    ru: RustModel,
) -> Result<RustModel, ErrorKind>
    decreases content.len(), 9int, 0int,
{
    match first_token_of(content) {
        Err(k) => Err(k),
        Ok(None) => Err(ErrorKind::MissingToken),
        Ok(Some(t)) => {
            proof {
                lemma_trim_front_head(content);
                lemma_trim_back_head(trim_front(content));
                lemma_trim_front_len(content);
                lemma_trim_back_len(trim_front(content));
                lemma_scan_token_fits(trim_back(trim_front(content)));
            }
            let ru1 = push_code(ru, prefix);
            let inner = match t.token_type {
                TokenTypeModel::SubExpression(_) => resolve_m(stack, ""@, t.value, ""@, ru1),
                _ => match scan_token(t.tail) {
                    Err(k) => Err(k),
                    Ok(Some(args)) => resolve_helper_m(stack, content, t, args, ru1),
                    Ok(None) => write_var_m(stack, content, t, ru1),
                },
            };
            match inner {
                Err(k) => Err(k),
                Ok(ru2) => Ok(push_code(ru2, postfix)),
            }
        },
    }
}

/// What a helper call emits: `lookup`/`try_lookup` render as an index or
/// optional-get form over exactly two arguments; any other name renders as
/// a function call over all following arguments.
pub open spec fn resolve_helper_m(
    stack: Seq<ScopeModel>,
    outer: Seq<char>,
    name: TokenModel,
    args: TokenModel,
    ru: RustModel,
) -> Result<RustModel, ErrorKind>
    decreases outer.len(), 3int, 0int,
{
    if name.value == "lookup"@ {
        lookup_m(stack, outer, args, "["@, "]"@, ru)
    } else if name.value == "try_lookup"@ {
        lookup_m(stack, outer, args, ".get("@, ")"@, ru)
    } else {
        rest_m(stack, outer, args, push_code(ru, name.value + "("@))
    }
}

/// What a two-argument lookup emits: the container, the opening text, the
/// key, the closing text; any third argument is refused.
pub open spec fn lookup_m(
    stack: Seq<ScopeModel>,
    outer: Seq<char>,
    args: TokenModel,
    open_text: Seq<char>,
    close_text: Seq<char>,
    ru: RustModel,
) -> Result<RustModel, ErrorKind>
    decreases outer.len(), 2int, 0int,
{
    match write_var_m(stack, outer, args, ru) {
        Err(k) => Err(k),
        Ok(ru1) => match scan_token(args.tail) {
            Err(k) => Err(k),
            Ok(None) => Err(ErrorKind::WrongArgumentCount),
            Ok(Some(second)) => match write_var_m(stack, outer, second, push_code(ru1, open_text)) {
                Err(k) => Err(k),
                Ok(ru2) => match scan_token(second.tail) {
                    Err(k) => Err(k),
                    Ok(Some(_)) => Err(ErrorKind::WrongArgumentCount),
                    Ok(None) => Ok(push_code(ru2, close_text)),
                },
            },
        },
    }
}

/// What the argument chain of a generic helper call emits: the arguments
/// separated by commas, then the closing parenthesis.
pub open spec fn rest_m(stack: Seq<ScopeModel>, outer: Seq<char>, tok: TokenModel, ru: RustModel)
    -> Result<RustModel, ErrorKind>
    decreases outer.len(), 2int, tok.tail.len(),
        when head_not_ws(tok.tail)
{
    match write_var_m(stack, outer, tok, ru) {
        Err(k) => Err(k),
        Ok(ru1) => match scan_token(tok.tail) {
            Err(k) => Err(k),
            Ok(None) => Ok(push_code(ru1, ")"@)),
            Ok(Some(nxt)) => {
                proof {
                    lemma_scan_token_fits(tok.tail);
                }
                rest_m(stack, outer, nxt, push_code(ru1, ", "@))
            },
        },
    }
}

/// What opening a block-open expression yields: the scope pushed for the
/// helper the expression names, and the helper's opening emission.
pub open spec fn open_m(
    stack: Seq<ScopeModel>,
    map: Seq<(Seq<char>, BlockFactory)>,
    shapes: Seq<(Seq<char>, VariableShape)>,
    e: crate::expression::ExprModel,
    ru: RustModel,
) -> Result<(Seq<ScopeModel>, RustModel), ErrorKind> {
    match first_token_of(e.content) {
        Err(k) => Err(k),
        Ok(None) => Err(ErrorKind::MissingToken),
        Ok(Some(token)) => match map_lookup(map, token.value) {
            None => Err(ErrorKind::UnknownBlockHelper),
            Some(f) => match crate::block::open_block_m(
                f,
                stack,
                shapes,
                e,
                token.tail,
                stack.len() as int,
                ru,
            ) {
                Err(k) => Err(k),
                Ok(p) => Ok(
                    (stack.push(ScopeModel { opened: p.0, depth: stack.len() as int }), p.1),
                ),
            },
        },
    }
}

// ---------------------------------------------------------------------------
// The compile session
// ---------------------------------------------------------------------------

/// The state of one compile session: the stack of open blocks and the
/// registry of block helpers.
pub struct Compile<'a> {
    /// The stack of open blocks; the root occupies index zero.
    pub open_stack: Vec<Scope>,
    /// The registry of block helpers.
    pub block_map: &'a BlockMap,
    /// The known shapes of top-level variables.
    pub variable_types: &'a Vec<(String, VariableShape)>,
}

impl<'a> Compile<'a> {
    /// The mathematical value of the open stack.
    pub open spec fn stack_model(self) -> Seq<ScopeModel> {
        self.open_stack@.map_values(|s: Scope| s@)
    }

    /// The open-stack invariant: non-empty, each scope's depth equal to its
    /// index, the root at index zero and nowhere else.
    pub open spec fn wf(self) -> bool {
        let sv = self.stack_model();
        &&& sv.len() >= 1
        &&& forall|i: int| 0 <= i < sv.len() ==> (#[trigger] sv[i]).depth == i
        &&& sv[0].opened is Root
        &&& forall|i: int| 1 <= i < sv.len() ==> !((#[trigger] sv[i]).opened is Root)
    }

    /// A fresh session whose stack holds only the root context.
    pub fn new(
        this: Option<&'static str>,
        block_map: &'a BlockMap,
        variable_types: &'a Vec<(String, VariableShape)>,
    ) -> (r: Self)
        ensures
            r.wf(),
            r.stack_model().len() == 1,
            r.stack_model()[0].opened == BlockModel::Root(
                match this {
                    Some(s) => Some(s@),
                    None => None,
                },
            ),
            r.block_map == block_map,
            r.variable_types == variable_types,
    {
        let mut open_stack: Vec<Scope> = Vec::new();
        open_stack.push(Scope { depth: 0, opened: Block::Root(Root { this }) });
        let r = Compile { open_stack, block_map, variable_types };
        assert(r.stack_model() =~= seq![
            ScopeModel {
                opened: BlockModel::Root(
                    match this {
                        Some(s) => Some(s@),
                        None => None,
                    },
                ),
                depth: 0,
            },
        ]);
        r
    }

    /// Walks outward one scope per leading `../` of the variable path.
    pub fn find_scope(&self, var: &'a str) -> (r: ParseResult<(&'a str, usize)>)
        requires
            self.wf(),
        ensures
            match r {
                Ok((name, d)) => find_scope_m(self.stack_model(), var@) == Ok::<
                    (Seq<char>, int),
                    ErrorKind,
                >((name@, d as int)) && d < self.open_stack@.len(),
                Err(pe) => find_scope_m(self.stack_model(), var@) == Err::<
                    (Seq<char>, int),
                    ErrorKind,
                >(pe.kind),
            },
    {
        proof {
            reveal_strlit("../");
            assert("../"@.len() == 3);
        }
        let mut local = var;
        let mut local_len = local.unicode_len();
        let mut d = self.open_stack.len() - 1;
        loop
            invariant
                d < self.open_stack@.len(),
                local_len == local@.len(),
                self.wf(),
                find_scope_m(self.stack_model(), var@) == find_scope_from(
                    self.stack_model(),
                    local@,
                    d as int,
                ),
            decreases local_len,
        {
            proof {
                reveal_strlit("../");
            }
            let is_rel = if local_len >= 3 {
                is_match_at(local, "../", 0, 3)
            } else {
                false
            };
            if !is_rel {
                return Ok((local, d));
            }
            if d == 0 {
                let mut message = String::from_str("unable to resolve scope for ");
                message.append(var);
                return Err(ParseError { kind: ErrorKind::ScopeNotFound, message });
            }
            local = local.substring_char(3, local_len);
            local_len = local_len - 3;
            d = d - 1;
        }
    }

    /// Renders a variable path against a named local binding, if it
    /// matches.
    pub fn resolve_local(&self, depth: usize, var: &str, local: &str, rust: &mut Rust) -> (r:
        bool)
        ensures
            r == (local_match(depth as int, var@, local@) is Some),
            r ==> final(rust)@ == push_code(
                old(rust)@,
                local_match(depth as int, var@, local@)->Some_0,
            ),
            !r ==> final(rust)@ == old(rust)@,
    {
        let llen = local.unicode_len();
        let vlen = var.unicode_len();
        if llen > vlen {
            assert(!match_at(var@, local@, 0));
            return false;
        }
        if !is_match_at(var, local, 0, llen) {
            return false;
        }
        if vlen > llen {
            if var.get_char(llen) != '.' {
                return false;
            }
            append_with_depth(depth, local, rust);
            rust.code.append(var.substring_char(llen, vlen));
            assert(final(rust)@ =~= push_code(
                old(rust)@,
                local_match(depth as int, var@, local@)->Some_0,
            ));
            true
        } else {
            append_with_depth(depth, local, rust);
            true
        }
    }

    /// Renders a variable path against the scope at depth `d`, walking
    /// outward when no local binding matches, and recording the path when
    /// the walk reaches the root.
    fn resolve_var(&self, var: &str, d: usize, rust: &mut Rust)
        requires
            self.wf(),
            d < self.open_stack@.len(),
        ensures
            final(rust)@ == resolve_var_m(self.stack_model(), var@, d as int, old(rust)@),
        decreases d,
    {
        if d == 0 {
            rust.record_top_level(var);
            match &self.open_stack[0].opened {
                Block::Root(root) => match root.this {
                    Some(t) => {
                        rust.code.append(t);
                        rust.code.append(".");
                        rust.code.append(var);
                        assert(final(rust)@ =~= resolve_var_m(
                            self.stack_model(),
                            var@,
                            0,
                            old(rust)@,
                        ));
                    },
                    None => {
                        rust.code.append(var);
                        assert(final(rust)@ =~= resolve_var_m(
                            self.stack_model(),
                            var@,
                            0,
                            old(rust)@,
                        ));
                    },
                },
                _ => {
                    // The well-formed stack holds the root at index zero.
                    assert(false);
                },
            }
            return ;
        }
        let matched = match &self.open_stack[d].opened {
            Block::Opt(b) => match &b.local {
                Local::As(l) => self.resolve_local(d, var, l.as_str(), rust),
                Local::This => {
                    self.write_this_local(d, var, rust);
                    true
                },
                Local::Unbound => false,
            },
            Block::Ctx(b) => match &b.local {
                Local::As(l) => self.resolve_local(d, var, l.as_str(), rust),
                Local::This => {
                    self.write_this_local(d, var, rust);
                    true
                },
                Local::Unbound => false,
            },
            Block::Loop(b) => match &b.local {
                Local::As(l) => self.resolve_local(d, var, l.as_str(), rust),
                Local::This => {
                    self.write_this_local(d, var, rust);
                    true
                },
                Local::Unbound => false,
            },
            _ => false,
        };
        if matched {
            return ;
        }
        // No local matched; non-root blocks expose no `this` expression, so
        // the walk continues against the parent scope unchanged.
        assert(block_this(self.stack_model()[d as int].opened) is None);
        self.resolve_var(var, d - 1, rust);
    }

    /// Writes the rendering of one token of an expression's content.
    pub fn write_var(&self, expression: &Expression<'a>, rust: &mut Rust, var: &Token<'a>) -> (r:
        ParseResult<()>)
        requires
            self.wf(),
            var@.token_type is SubExpression ==> var@.value.len() + 2
                <= expression@.content.len(),
        ensures
            match r {
                Ok(()) => write_var_m(
                    self.stack_model(),
                    expression@.content,
                    var@,
                    old(rust)@,
                ) == Ok::<RustModel, ErrorKind>(final(rust)@),
                Err(pe) => write_var_m(self.stack_model(), expression@.content, var@, old(rust)@)
                    == Err::<RustModel, ErrorKind>(pe.kind),
            },
        decreases expression@.content.len(), 1int, 0int,
    {
        match var.token_type {
            TokenType::PrivateVariable => match self.find_scope(var.value) {
                Err(pe) => Err(pe),
                Ok((name, d)) => {
                    assert(self.stack_model()[d as int] == self.open_stack@[d as int]@);
                    match self.open_stack[d].opened.resolve_private(d, expression, name, rust) {
                        Err(pe) => Err(pe),
                        Ok(()) => Ok(()),
                    }
                },
            },
            TokenType::Variable => match self.find_scope(var.value) {
                Err(pe) => Err(pe),
                Ok((name, d)) => {
                    self.resolve_var(name, d, rust);
                    Ok(())
                },
            },
            TokenType::Literal => {
                rust.code.append(var.value);
                Ok(())
            },
            TokenType::SubExpression(raw) => self.resolve_sub_expression(raw, var.value, rust),
        }
    }

    /// Resolves a parenthesized sub-expression as an expression of its own.
    fn resolve_sub_expression(&self, raw: &'a str, value: &'a str, rust: &mut Rust) -> (r:
        ParseResult<()>)
        requires
            self.wf(),
        ensures
            match r {
                Ok(()) => resolve_m(self.stack_model(), ""@, value@, ""@, old(rust)@) == Ok::<
                    RustModel,
                    ErrorKind,
                >(final(rust)@),
                Err(pe) => resolve_m(self.stack_model(), ""@, value@, ""@, old(rust)@) == Err::<
                    RustModel,
                    ErrorKind,
                >(pe.kind),
            },
        decreases value@.len(), 10int, 0int,
    {
        self.resolve(
            &Expression {
                expression_type: ExpressionType::Raw,
                prefix: "",
                content: value,
                postfix: "",
                raw,
            },
            rust,
        )
    }

    /// Resolves an expression's content into the code: its prefix, the
    /// rendering of its tokens, its postfix.
    fn resolve(&self, expression: &Expression<'a>, rust: &mut Rust) -> (r: ParseResult<()>)
        requires
            self.wf(),
        ensures
            match r {
                Ok(()) => resolve_m(
                    self.stack_model(),
                    expression@.prefix,
                    expression@.content,
                    expression@.postfix,
                    old(rust)@,
                ) == Ok::<RustModel, ErrorKind>(final(rust)@),
                Err(pe) => resolve_m(
                    self.stack_model(),
                    expression@.prefix,
                    expression@.content,
                    expression@.postfix,
                    old(rust)@,
                ) == Err::<RustModel, ErrorKind>(pe.kind),
            },
        decreases expression@.content.len(), 9int, 0int,
    {
        proof {
            lemma_trim_front_head(expression@.content);
            lemma_trim_back_head(trim_front(expression@.content));
            lemma_trim_front_len(expression@.content);
            lemma_trim_back_len(trim_front(expression@.content));
        }
        let token = match Token::first(expression.content) {
            Err(pe) => {
                return Err(pe);
            },
            Ok(None) => {
                return Err(
                    ParseError::new(
                        ErrorKind::MissingToken,
                        "expected token",
                        expression.around(),
                    ),
                );
            },
            Ok(Some(t)) => t,
        };
        rust.code.append(expression.prefix);
        match token.token_type {
            TokenType::SubExpression(raw) => {
                match self.resolve_sub_expression(raw, token.value, rust) {
                    Err(pe) => {
                        return Err(pe);
                    },
                    Ok(()) => {},
                }
            },
            _ => {
                match token.next() {
                    Err(pe) => {
                        return Err(pe);
                    },
                    Ok(Some(args)) => {
                        match self.resolve_helper(expression, token, args, rust) {
                            Err(pe) => {
                                return Err(pe);
                            },
                            Ok(()) => {},
                        }
                    },
                    Ok(None) => {
                        match self.write_var(expression, rust, &token) {
                            Err(pe) => {
                                return Err(pe);
                            },
                            Ok(()) => {},
                        }
                    },
                }
            },
        }
        rust.code.append(expression.postfix);
        Ok(())
    }

    /// Renders a helper call: `lookup`/`try_lookup` as an index or
    /// optional-get form over exactly two arguments, any other name as a
    /// function call over all following arguments.
    fn resolve_helper(
        &self,
        expression: &Expression<'a>,
        name: Token<'a>,
        args: Token<'a>,
        rust: &mut Rust,
    ) -> (r: ParseResult<()>)
        requires
            self.wf(),
            args.wf(),
            args@.token_type is SubExpression ==> args@.value.len() + 2
                <= expression@.content.len(),
            args@.value.len() <= expression@.content.len(),
            args@.tail.len() <= expression@.content.len(),
        ensures
            match r {
                Ok(()) => resolve_helper_m(
                    self.stack_model(),
                    expression@.content,
                    name@,
                    args@,
                    old(rust)@,
                ) == Ok::<RustModel, ErrorKind>(final(rust)@),
                Err(pe) => resolve_helper_m(
                    self.stack_model(),
                    expression@.content,
                    name@,
                    args@,
                    old(rust)@,
                ) == Err::<RustModel, ErrorKind>(pe.kind),
            },
        decreases expression@.content.len(), 3int, 0int,
    {
        if str_eq(name.value, "lookup") {
            return self.resolve_lookup(expression, "[", "]", args, rust);
        }
        if str_eq(name.value, "try_lookup") {
            return self.resolve_lookup(expression, ".get(", ")", args, rust);
        }
        rust.code.append(name.value);
        rust.code.append("(");
        let ghost entry = rust@;
        let ghost total = resolve_helper_m(
            self.stack_model(),
            expression@.content,
            name@,
            args@,
            old(rust)@,
        );
        assert(entry =~= push_code(old(rust)@, name@.value + "("@));
        let mut cur = args;
        loop
            invariant
                self.wf(),
                cur.wf(),
                cur@.token_type is SubExpression ==> cur@.value.len() + 2
                    <= expression@.content.len(),
                cur@.tail.len() <= expression@.content.len(),
                total == resolve_helper_m(
                    self.stack_model(),
                    expression@.content,
                    name@,
                    args@,
                    old(rust)@,
                ),
                total == rest_m(self.stack_model(), expression@.content, cur@, rust@),
            decreases cur@.tail.len(),
        {
            match self.write_var(expression, rust, &cur) {
                Err(pe) => {
                    return Err(pe);
                },
                Ok(()) => {},
            }
            match cur.next() {
                Err(pe) => {
                    return Err(pe);
                },
                Ok(Some(token)) => {
                    rust.code.append(", ");
                    cur = token;
                },
                Ok(None) => {
                    rust.code.append(")");
                    return Ok(());
                },
            }
        }
    }

    /// Renders a two-argument `lookup`/`try_lookup` form.
    fn resolve_lookup(
        &self,
        expression: &Expression<'a>,
        prefix: &str,
        postfix: &str,
        args: Token<'a>,
        rust: &mut Rust,
    ) -> (r: ParseResult<()>)
        requires
            self.wf(),
            args.wf(),
            args@.token_type is SubExpression ==> args@.value.len() + 2
                <= expression@.content.len(),
            args@.tail.len() <= expression@.content.len(),
        ensures
            match r {
                Ok(()) => lookup_m(
                    self.stack_model(),
                    expression@.content,
                    args@,
                    prefix@,
                    postfix@,
                    old(rust)@,
                ) == Ok::<RustModel, ErrorKind>(final(rust)@),
                Err(pe) => lookup_m(
                    self.stack_model(),
                    expression@.content,
                    args@,
                    prefix@,
                    postfix@,
                    old(rust)@,
                ) == Err::<RustModel, ErrorKind>(pe.kind),
            },
        decreases expression@.content.len(), 2int, 0int,
    {
        match self.write_var(expression, rust, &args) {
            Err(pe) => {
                return Err(pe);
            },
            Ok(()) => {},
        }
        match args.next() {
            Err(pe) => Err(pe),
            Ok(None) => Err(
                ParseError::new(
                    ErrorKind::WrongArgumentCount,
                    "lookup expects 2 arguments",
                    expression.around(),
                ),
            ),
            Ok(Some(second)) => {
                rust.code.append(prefix);
                match self.write_var(expression, rust, &second) {
                    Err(pe) => {
                        return Err(pe);
                    },
                    Ok(()) => {},
                }
                match second.next() {
                    Err(pe) => Err(pe),
                    Ok(Some(_)) => Err(
                        ParseError::new(
                            ErrorKind::WrongArgumentCount,
                            "lookup expects 2 arguments",
                            expression.around(),
                        ),
                    ),
                    Ok(None) => {
                        rust.code.append(postfix);
                        Ok(())
                    },
                }
            },
        }
    }

    /// Dispatches an `else` to the innermost open block.
    pub fn handle_else(&self, expression: &Expression<'a>, rust: &mut Rust) -> (r: ParseResult<
        (),
    >)
        requires
            self.wf(),
        ensures
            match r {
                Ok(()) => handle_else_m(self.stack_model().last().opened, old(rust)@) == Ok::<
                    RustModel,
                    ErrorKind,
                >(final(rust)@),
                Err(pe) => handle_else_m(self.stack_model().last().opened, old(rust)@) == Err::<
                    RustModel,
                    ErrorKind,
                >(pe.kind) && final(rust)@ == old(rust)@,
            },
    {
        let i = self.open_stack.len() - 1;
        assert(self.stack_model()[i as int] == self.open_stack@[i as int]@);
        assert(self.stack_model().last() == self.stack_model()[i as int]);
        self.open_stack[i].opened.handle_else(expression, rust)
    }

    /// Writes the declaration name of a local binding, suffixed with the
    /// depth the binding will live at.
    pub fn write_local(&self, rust: &mut Rust, local: &Local)
        ensures
            final(rust)@ == push_code(
                old(rust)@,
                with_depth(local_name(local@), self.open_stack@.len() as int),
            ),
    {
        append_with_depth(
            self.open_stack.len(),
            match local {
                Local::As(l) => l.as_str(),
                _ => "this",
            },
            rust,
        );
    }

    /// Closes the innermost open block, failing on a close with no
    /// matching open.
    pub fn close(&mut self, expression: Expression<'a>, rust: &mut Rust) -> (r: ParseResult<()>)
        requires
            old(self).wf(),
        ensures
            final(self).block_map == old(self).block_map,
            final(self).variable_types == old(self).variable_types,
            final(self).wf(),
            match r {
                Ok(()) => close_m(old(self).stack_model(), old(rust)@) == Ok::<
                    (Seq<ScopeModel>, RustModel),
                    ErrorKind,
                >((final(self).stack_model(), final(rust)@)),
                Err(pe) => close_m(old(self).stack_model(), old(rust)@) == Err::<
                    (Seq<ScopeModel>, RustModel),
                    ErrorKind,
                >(pe.kind) && final(self).stack_model() == old(self).stack_model() && final(rust)@
                    == old(rust)@,
            },
    {
        if self.open_stack.len() <= 1 {
            return Err(
                ParseError::new(
                    ErrorKind::MismatchedBlockClose,
                    "Mismatched block helper",
                    expression.around(),
                ),
            );
        }
        let ghost old_stack = self.stack_model();
        match self.open_stack.pop() {
            Some(scope) => {
                proof {
                    assert(scope@ == old_stack.last());
                    assert(self.stack_model() =~= old_stack.drop_last());
                }
                scope.opened.handle_close(rust);
                Ok(())
            },
            None => {
                // Unreachable: the stack was checked to hold an open block.
                proof {
                    assert(false);
                }
                Err(
                    ParseError::new(
                        ErrorKind::MismatchedBlockClose,
                        "Mismatched block helper",
                        expression.around(),
                    ),
                )
            },
        }
    }

    /// Opens the block a block-open expression names, pushing its scope.
    pub fn open(&mut self, expression: Expression<'a>, rust: &mut Rust) -> (r: ParseResult<()>)
        requires
            old(self).wf(),
        ensures
            final(self).block_map == old(self).block_map,
            final(self).variable_types == old(self).variable_types,
            final(self).wf(),
            match r {
                Ok(()) => open_m(
                    old(self).stack_model(),
                    map_entries(old(self).block_map),
                    shapes_view(old(self).variable_types),
                    expression@,
                    old(rust)@,
                ) == Ok::<(Seq<ScopeModel>, RustModel), ErrorKind>(
                    (final(self).stack_model(), final(rust)@),
                ),
                Err(pe) => open_m(
                    old(self).stack_model(),
                    map_entries(old(self).block_map),
                    shapes_view(old(self).variable_types),
                    expression@,
                    old(rust)@,
                ) == Err::<(Seq<ScopeModel>, RustModel), ErrorKind>(pe.kind)
                    && final(self).stack_model() == old(self).stack_model(),
            },
    {
        proof {
            lemma_trim_front_head(expression@.content);
            lemma_trim_back_head(trim_front(expression@.content));
            lemma_trim_front_len(expression@.content);
            lemma_trim_back_len(trim_front(expression@.content));
        }
        let token = match Token::first(expression.content) {
            Err(pe) => {
                return Err(pe);
            },
            Ok(None) => {
                return Err(
                    ParseError::new(
                        ErrorKind::MissingToken,
                        "expected token",
                        expression.around(),
                    ),
                );
            },
            Ok(Some(t)) => t,
        };
        match self.block_map.get(token.value) {
            None => {
                let mut message = String::from_str("unsupported block helper ");
                message.append(token.value);
                Err(
                    ParseError::new(
                        ErrorKind::UnknownBlockHelper,
                        message.as_str(),
                        expression.around(),
                    ),
                )
            },
            Some(factory) => {
                let blk = match factory.open(&*self, token, &expression, rust) {
                    Err(pe) => {
                        return Err(pe);
                    },
                    Ok(blk) => blk,
                };
                let depth = self.open_stack.len();
                let ghost old_stack = self.stack_model();
                self.open_stack.push(Scope { opened: blk, depth });
                proof {
                    assert(self.stack_model() =~= old_stack.push(
                        ScopeModel { opened: blk@, depth: depth as int },
                    ));
                }
                Ok(())
            },
        }
    }

    /// Resolves one expression during a batch commit; a helper shared by
    /// the interpolation and format slots.
    fn resolve_slot(
        &self,
        raw: &'a str,
        content: &'a str,
        postfix: &'static str,
        rust: &mut Rust,
    ) -> (r: ParseResult<()>)
        requires
            self.wf(),
        ensures
            match r {
                Ok(()) => resolve_m(self.stack_model(), ", "@, content@, postfix@, old(rust)@)
                    == Ok::<RustModel, ErrorKind>(final(rust)@),
                Err(pe) => resolve_m(self.stack_model(), ", "@, content@, postfix@, old(rust)@)
                    == Err::<RustModel, ErrorKind>(pe.kind),
            },
    {
        self.resolve(
            &Expression {
                expression_type: ExpressionType::Raw,
                prefix: ", ",
                content,
                postfix,
                raw,
            },
            rust,
        )
    }

    /// Commits the pending writes: merges all queued verbatim text and
    /// interpolation slots into exactly one emission instruction.
    fn commit_pending(
        &self,
        options: &Options,
        pending: &mut Vec<PendingWrite<'a>>,
        rust: &mut Rust,
    ) -> (r: ParseResult<()>)
        requires
            self.wf(),
        ensures
            match r {
                Ok(()) => commit_m(
                    self.stack_model(),
                    pending_view(old(pending)@),
                    options.write_var_name@,
                    old(rust)@,
                ) == Ok::<RustModel, ErrorKind>(final(rust)@) && final(pending)@.len() == 0,
                Err(pe) => commit_m(
                    self.stack_model(),
                    pending_view(old(pending)@),
                    options.write_var_name@,
                    old(rust)@,
                ) == Err::<RustModel, ErrorKind>(pe.kind),
            },
    {
        let ghost pv = pending_view(pending@);
        if pending.len() == 0 {
            assert(pv =~= Seq::<PendingModel>::empty());
            return Ok(());
        }
        rust.code.append("write!(");
        rust.code.append(options.write_var_name);
        rust.code.append(", \"");
        let n = pending.len();
        let mut i: usize = 0;
        let ghost before_fmt = rust@;
        proof {
            assert(pv.subrange(0, 0) =~= Seq::<PendingModel>::empty());
            assert(rust@ =~= push_code(before_fmt, fmt_parts(pv.subrange(0, 0))));
        }
        while i < n
            invariant
                0 <= i <= n,
                n == pending@.len(),
                pv == pending_view(pending@),
                rust@ == push_code(before_fmt, fmt_parts(pv.subrange(0, i as int))),
            decreases n - i,
        {
            proof {
                assert(pv[i as int] == pending@[i as int]@);
            }
            match &pending[i] {
                PendingWrite::Raw(raw) => {
                    let esc = escape(raw);
                    rust.code.append(esc.as_str());
                },
                PendingWrite::Expression(_) => {
                    rust.code.append("{}");
                },
                PendingWrite::Format((_, fmt, _)) => {
                    rust.code.append(fmt);
                },
            }
            proof {
                lemma_fmt_parts_concat(pv.subrange(0, i as int), seq![pv[i as int]]);
                assert(pv.subrange(0, i + 1) =~= pv.subrange(0, i as int) + seq![pv[i as int]]);
                let single = seq![pv[i as int]];
                assert(single.len() == 1);
                assert(single.subrange(1, 1) =~= Seq::<PendingModel>::empty());
                assert(single[0] == pv[i as int]);
                assert(fmt_parts(single.subrange(1, 1)) == fmt_parts(
                    Seq::<PendingModel>::empty(),
                ));
                assert(fmt_parts(Seq::<PendingModel>::empty()) =~= Seq::<char>::empty());
                assert(fmt_part(pv[i as int]) + Seq::<char>::empty() =~= fmt_part(
                    pv[i as int],
                ));
                assert(fmt_parts(single) =~= fmt_part(pv[i as int]));
                assert(rust@ =~= push_code(before_fmt, fmt_parts(pv.subrange(0, i + 1))));
            }
            i += 1;
        }
        proof {
            assert(pv.subrange(0, n as int) =~= pv);
        }
        rust.code.append("\"");
        let ghost ru_hdr = rust@;
        let ghost total_args = commit_args(self.stack_model(), pv, ru_hdr);
        let mut i: usize = 0;
        proof {
            assert(pv.subrange(0, n as int) =~= pv);
            assert(ru_hdr =~= push_code(
                old(rust)@,
                "write!("@ + options.write_var_name@ + ", \""@ + fmt_parts(pv) + "\""@,
            ));
        }
        while i < n
            invariant
                0 <= i <= n,
                n == pending@.len(),
                self.wf(),
                pv == pending_view(pending@),
                pv.len() > 0,
                total_args == commit_args(
                    self.stack_model(),
                    pv.subrange(i as int, n as int),
                    rust@,
                ),
                (match total_args {
                    Ok(ru2) => commit_m(
                        self.stack_model(),
                        pv,
                        options.write_var_name@,
                        old(rust)@,
                    ) == Ok::<RustModel, ErrorKind>(push_code(ru2, ")?;"@)),
                    Err(k) => commit_m(
                        self.stack_model(),
                        pv,
                        options.write_var_name@,
                        old(rust)@,
                    ) == Err::<RustModel, ErrorKind>(k),
                }),
            decreases n - i,
        {
            proof {
                assert(pv[i as int] == pending@[i as int]@);
                let tail = pv.subrange(i as int, n as int);
                assert(tail[0] == pv[i as int]);
                assert(tail.subrange(1, tail.len() as int) =~= pv.subrange(i + 1, n as int));
            }
            match &pending[i] {
                PendingWrite::Raw(_) => {},
                PendingWrite::Expression((expression, uses, display)) => {
                    match self.resolve_slot(expression.raw, expression.content, display, rust) {
                        Err(pe) => {
                            return Err(pe);
                        },
                        Ok(()) => {},
                    }
                    rust.insert_use(uses);
                },
                PendingWrite::Format((raw, _, content)) => {
                    match self.resolve_slot(raw, content, "", rust) {
                        Err(pe) => {
                            return Err(pe);
                        },
                        Ok(()) => {},
                    }
                },
            }
            i += 1;
        }
        proof {
            assert(pv.subrange(n as int, n as int) =~= Seq::<PendingModel>::empty());
        }
        rust.code.append(")?;");
        pending.clear();
        Ok(())
    }

    /// Renders the implicit `this` binding of the scope at depth `d`.
    fn write_this_local(&self, d: usize, var: &str, rust: &mut Rust)
        ensures
            final(rust)@ == push_code(
                old(rust)@,
                "this_"@ + dec_str(d as int) + if var@ != "this"@ {
                    "."@ + var@
                } else {
                    Seq::<char>::empty()
                },
            ),
    {
        rust.code.append("this_");
        let ds = usize_string(d);
        rust.code.append(ds.as_str());
        if !str_eq(var, "this") {
            rust.code.append(".");
            rust.code.append(var);
        }
        assert(final(rust)@ =~= push_code(
            old(rust)@,
            "this_"@ + dec_str(d as int) + if var@ != "this"@ {
                "."@ + var@
            } else {
                Seq::<char>::empty()
            },
        ));
    }
}

// ---------------------------------------------------------------------------
// Escaping into the emission format string
// ---------------------------------------------------------------------------

/// A character that cannot stand bare inside the emitted format string.
pub open spec fn special_char(c: char) -> bool {
    c == '{' || c == '}' || c == '\\' || c == '"'
}

/// What one character contributes to the emitted format string: braces are
/// doubled, backslashes and quotes backslash-escaped.
pub open spec fn escape_char(c: char) -> Seq<char> {
    if c == '{' {
        "{{"@
    } else if c == '}' {
        "}}"@
    } else if c == '\\' {
        "\\\\"@
    } else if c == '"' {
        "\\\""@
    } else {
        seq![c]
    }
}

/// Verbatim text as it stands inside the emitted format string.
pub open spec fn escape_seq(s: Seq<char>) -> Seq<char>
    decreases s.len(),
{
    if s.len() == 0 {
        Seq::empty()
    } else {
        escape_char(s[0]) + escape_seq(s.subrange(1, s.len() as int))
    }
}

pub proof fn lemma_escape_concat(a: Seq<char>, b: Seq<char>)
    ensures
        escape_seq(a + b) == escape_seq(a) + escape_seq(b),
    decreases a.len(),
{
    if a.len() == 0 {
        assert(a + b =~= b);
        assert(escape_seq(a) + escape_seq(b) =~= escape_seq(b));
    } else {
        assert((a + b).subrange(1, (a + b).len() as int) =~= a.subrange(1, a.len() as int) + b);
        lemma_escape_concat(a.subrange(1, a.len() as int), b);
        assert((a + b)[0] == a[0]);
        assert(escape_char(a[0]) + (escape_seq(a.subrange(1, a.len() as int)) + escape_seq(b))
            =~= (escape_char(a[0]) + escape_seq(a.subrange(1, a.len() as int))) + escape_seq(b));
    }
}

proof fn lemma_escape_plain(s: Seq<char>)
    requires
        forall|k: int| 0 <= k < s.len() ==> !special_char(#[trigger] s[k]),
    ensures
        escape_seq(s) == s,
    decreases s.len(),
{
    if s.len() == 0 {
        assert(escape_seq(s) =~= s);
    } else {
        lemma_escape_plain(s.subrange(1, s.len() as int));
        assert(escape_seq(s) =~= s);
    }
}

/// Escapes verbatim text for the emitted format string.
fn escape(content: &str) -> (r: String)
    ensures
        r@ == escape_seq(content@),
{
    let len = content.unicode_len();
    let mut r = String::new();
    let mut i: usize = 0;
    let mut run_start: usize = 0;
    proof {
        assert(content@.subrange(0, len as int) =~= content@);
        assert(r@ + escape_seq(content@) =~= escape_seq(content@));
    }
    loop
        invariant
            0 <= run_start <= i <= len,
            len == content@.len(),
            r@ + escape_seq(content@.subrange(run_start as int, len as int)) == escape_seq(
                content@,
            ),
            forall|k: int|
                run_start <= k < i ==> !special_char(#[trigger] content@[k]),
        decreases len - i,
    {
        if i >= len {
            let run = content.substring_char(run_start, len);
            r.append(run);
            proof {
                lemma_escape_plain(content@.subrange(run_start as int, len as int));
            }
            return r;
        }
        let c = content.get_char(i);
        if c == '{' || c == '}' || c == '\\' || c == '"' {
            let run = content.substring_char(run_start, i);
            r.append(run);
            if c == '{' {
                r.append("{{");
            } else if c == '}' {
                r.append("}}");
            } else if c == '\\' {
                r.append("\\\\");
            } else {
                r.append("\\\"");
            }
            proof {
                let rest0 = content@.subrange(run_start as int, len as int);
                let run_seq = content@.subrange(run_start as int, i as int);
                let rest1 = content@.subrange(i as int, len as int);
                let rest2 = content@.subrange(i + 1, len as int);
                assert(rest0 =~= run_seq + rest1);
                lemma_escape_concat(run_seq, rest1);
                lemma_escape_plain(run_seq);
                assert(rest1.subrange(1, rest1.len() as int) =~= rest2);
                assert(rest1[0] == content@[i as int]);
            }
            i = i + 1;
            run_start = i;
        } else {
            i = i + 1;
        }
    }
}

// ---------------------------------------------------------------------------
// Pending writes and batching
// ---------------------------------------------------------------------------

/// One queued element of the batch between two control-flow boundaries.
pub enum PendingWrite<'a> {
    /// Verbatim text.
    Raw(&'a str),
    /// An interpolation: the expression, the capability it needs, and the
    /// display-call suffix its rendering gets.
    Expression((Expression<'a>, &'static str, &'static str)),
    /// A `format` directive: the raw span for error context, the inlined
    /// format string, and the argument expression.
    Format((&'a str, &'a str, &'a str)),
}

/// The mathematical value of a [`PendingWrite`].
#[verifier::ext_equal]
pub enum PendingModel {
    Raw(Seq<char>),
    Expression { content: Seq<char>, uses: Seq<char>, display: Seq<char> },
    Format { fmt: Seq<char>, arg: Seq<char> },
}

impl<'a> View for PendingWrite<'a> {
    type V = PendingModel;

    open spec fn view(&self) -> PendingModel {
        match self {
            PendingWrite::Raw(raw) => PendingModel::Raw(raw@),
            PendingWrite::Expression((e, uses, display)) => PendingModel::Expression {
                content: e.content@,
                uses: uses@,
                display: display@,
            },
            PendingWrite::Format((raw, fmt, arg)) => PendingModel::Format {
                fmt: fmt@,
                arg: arg@,
            },
        }
    }
}

/// The mathematical value of a queue of pending writes.
pub open spec fn pending_view<'a>(p: Seq<PendingWrite<'a>>) -> Seq<PendingModel> {
    p.map_values(|w: PendingWrite<'a>| w@)
}

/// Queues one pending write.
fn push_pending<'a>(pending: &mut Vec<PendingWrite<'a>>, w: PendingWrite<'a>)
    ensures
        pending_view(final(pending)@) == pending_view(old(pending)@).push(w@),
{
    let ghost wv = w@;
    pending.push(w);
    assert(pending_view(pending@) =~= pending_view(old(pending)@).push(wv));
}

/// What one pending element contributes to the emitted format string.
pub open spec fn fmt_part(p: PendingModel) -> Seq<char> {
    match p {
        PendingModel::Raw(raw) => escape_seq(raw),
        PendingModel::Expression { .. } => "{}"@,
        PendingModel::Format { fmt, .. } => fmt,
    }
}

/// What the queue contributes to the emitted format string, in order.
pub open spec fn fmt_parts(pending: Seq<PendingModel>) -> Seq<char>
    decreases pending.len(),
{
    if pending.len() == 0 {
        Seq::empty()
    } else {
        fmt_part(pending[0]) + fmt_parts(pending.subrange(1, pending.len() as int))
    }
}

pub proof fn lemma_fmt_parts_concat(a: Seq<PendingModel>, b: Seq<PendingModel>)
    ensures
        fmt_parts(a + b) == fmt_parts(a) + fmt_parts(b),
    decreases a.len(),
{
    if a.len() == 0 {
        assert(a + b =~= b);
        assert(fmt_parts(a) + fmt_parts(b) =~= fmt_parts(b));
    } else {
        assert((a + b).subrange(1, (a + b).len() as int) =~= a.subrange(1, a.len() as int) + b);
        lemma_fmt_parts_concat(a.subrange(1, a.len() as int), b);
        assert((a + b)[0] == a[0]);
        assert(fmt_part(a[0]) + (fmt_parts(a.subrange(1, a.len() as int)) + fmt_parts(b)) =~= (
        fmt_part(a[0]) + fmt_parts(a.subrange(1, a.len() as int))) + fmt_parts(b));
    }
}

/// `ru` with the named capability recorded.
pub open spec fn add_use(ru: RustModel, name: Seq<char>) -> RustModel {
    RustModel { using: insert_unique(ru.using, name), ..ru }
}

/// What the argument slots of one merged emission contribute, in order:
/// each interpolation resolves with a `", "` prefix and its display suffix
/// and records its capability; each format directive resolves its argument.
pub open spec fn commit_args(
    stack: Seq<ScopeModel>,
    pending: Seq<PendingModel>,
    ru: RustModel,
) -> Result<RustModel, ErrorKind>
    decreases pending.len(),
{
    if pending.len() == 0 {
        Ok(ru)
    } else {
        let step = match pending[0] {
            PendingModel::Raw(_) => Ok(ru),
            PendingModel::Expression { content, uses, display } => match resolve_m(
                stack,
                ", "@,
                content,
                display,
                ru,
            ) {
                Err(k) => Err(k),
                Ok(ru1) => Ok(add_use(ru1, uses)),
            },
            PendingModel::Format { fmt, arg } => resolve_m(stack, ", "@, arg, ""@, ru),
        };
        match step {
            Err(k) => Err(k),
            Ok(ru1) => commit_args(stack, pending.subrange(1, pending.len() as int), ru1),
        }
    }
}

/// What committing the queue emits: nothing for an empty queue, else one
/// `write!` instruction holding the merged format string and all argument
/// slots in source order.
pub open spec fn commit_m(
    stack: Seq<ScopeModel>,
    pending: Seq<PendingModel>,
    write_var_name: Seq<char>,
    ru: RustModel,
) -> Result<RustModel, ErrorKind> {
    if pending.len() == 0 {
        Ok(ru)
    } else {
        let ru1 = push_code(
            ru,
            "write!("@ + write_var_name + ", \""@ + fmt_parts(pending) + "\""@,
        );
        match commit_args(stack, pending, ru1) {
            Err(k) => Err(k),
            Ok(ru2) => Ok(push_code(ru2, ")?;"@)),
        }
    }
}

// ---------------------------------------------------------------------------
// Selecting the pending write of an interpolation
// ---------------------------------------------------------------------------

/// What queuing an interpolation yields: ordinarily an interpolation slot;
/// a leading `format` helper instead becomes a format directive, whose
/// first argument must be a string literal and which takes exactly two
/// arguments.
pub open spec fn select_write_m(e: crate::expression::ExprModel, uses: Seq<char>, display: Seq<char>)
    -> Result<PendingModel, ErrorKind> {
    let plain = PendingModel::Expression { content: e.content, uses, display };
    match first_token_of(e.content) {
        Err(k) => Err(k),
        Ok(None) => Ok(plain),
        Ok(Some(t)) => {
            if !(t.token_type is Variable) {
                Ok(plain)
            } else if t.value != "format"@ {
                Ok(plain)
            } else {
                match scan_token(t.tail) {
                    Err(k) => Err(k),
                    Ok(None) => Err(ErrorKind::WrongArgumentCount),
                    Ok(Some(pattern)) => match scan_token(pattern.tail) {
                        Err(_) => Err(ErrorKind::WrongArgumentCount),
                        Ok(None) => Err(ErrorKind::WrongArgumentCount),
                        Ok(Some(value)) => {
                            if pattern.token_type is Literal && pattern.value.len() >= 2
                                && pattern.value[0] == '"' && pattern.value[pattern.value.len()
                                - 1] == '"' {
                                match scan_token(value.tail) {
                                    Err(k) => Err(k),
                                    Ok(Some(_)) => Err(ErrorKind::WrongArgumentCount),
                                    Ok(None) => Ok(
                                        PendingModel::Format {
                                            fmt: pattern.value.subrange(
                                                1,
                                                pattern.value.len() - 1,
                                            ),
                                            arg: value.value,
                                        },
                                    ),
                                }
                            } else {
                                Err(ErrorKind::FormatNotLiteral)
                            }
                        },
                    },
                }
            }
        },
    }
}

// ---------------------------------------------------------------------------
// The compiler
// ---------------------------------------------------------------------------

/// Compiler options: the configured root expression (or none, leaving
/// variables unqualified), the name of the sink the emitted code writes
/// through, and the known shapes of top-level variables.
#[derive(Debug, Clone)]
pub struct Options {
    /// The name of the root variable.
    pub root_var_name: Option<&'static str>,
    /// The name of the sink variable `write!` writes through.
    pub write_var_name: &'static str,
    /// Known shapes of top-level variables: when `if` or `with` opens on a
    /// variable declared [`VariableShape::Optional`], the option-aware
    /// behaviour is selected instead of the boolean or plain one.
    pub variable_types: Vec<(String, VariableShape)>,
}

/// The view of an optional static name.
pub open spec fn opt_name(o: Option<&'static str>) -> Option<Seq<char>> {
    match o {
        Some(s) => Some(s@),
        None => None,
    }
}

/// The template compiler: drives the scanner over a whole template,
/// dispatching expressions to the scope stack and the block helpers and
/// batching everything between control-flow boundaries into single merged
/// emission instructions.
pub struct Compiler {
    /// The compiler options.
    pub options: Options,
    /// The registry of block helpers.
    pub block_map: BlockMap,
}

/// What compiling the remaining template yields, given the open-block
/// stack, the queued pending writes and the output so far.  A scanned
/// expression's prefix queues as verbatim text; interpolations queue as
/// slots; comments vanish; block opens, closes and `else` commit the queue
/// and drive the scope stack; text after the last delimiter queues
/// verbatim; and an open block left at the end of input fails.
pub open spec fn compile_from(
    stack: Seq<ScopeModel>,
    map: Seq<(Seq<char>, BlockFactory)>,
    shapes: Seq<(Seq<char>, VariableShape)>,
    rest: Seq<char>,
    pending: Seq<PendingModel>,
    wvn: Seq<char>,
    ru: RustModel,
) -> Result<RustModel, ErrorKind>
    decreases rest.len(),
{
    match crate::expression::scan(rest) {
        Err(k) => Err(k),
        Ok(None) => {
            let pend2 = if rest.len() > 0 {
                pending.push(PendingModel::Raw(rest))
            } else {
                pending
            };
            match commit_m(stack, pend2, wvn, ru) {
                Err(k) => Err(k),
                Ok(ru1) => {
                    if stack.len() == 1 {
                        Ok(ru1)
                    } else {
                        Err(ErrorKind::UnclosedBlock)
                    }
                },
            }
        },
        Ok(Some(e)) => {
            proof {
                crate::expression::lemma_scan_consumes(rest);
            }
            let pend1 = if e.prefix.len() > 0 {
                pending.push(PendingModel::Raw(e.prefix))
            } else {
                pending
            };
            match e.expression_type {
                ExpressionType::Raw => match select_write_m(e, "AsDisplay"@, ".as_display()"@) {
                    Err(k) => Err(k),
                    Ok(p) => compile_from(stack, map, shapes, e.postfix, pend1.push(p), wvn, ru),
                },
                ExpressionType::HtmlEscaped => {
                    if trim_back(trim_front(e.content)) == "else"@ {
                        match commit_m(stack, pend1, wvn, ru) {
                            Err(k) => Err(k),
                            Ok(ru1) => match handle_else_m(stack.last().opened, ru1) {
                                Err(k) => Err(k),
                                Ok(ru2) => compile_from(
                                    stack,
                                    map,
                                    shapes,
                                    e.postfix,
                                    Seq::empty(),
                                    wvn,
                                    ru2,
                                ),
                            },
                        }
                    } else {
                        match select_write_m(e, "AsDisplayHtml"@, ".as_display_html()"@) {
                            Err(k) => Err(k),
                            Ok(p) => compile_from(
                                stack,
                                map,
                                shapes,
                                e.postfix,
                                pend1.push(p),
                                wvn,
                                ru,
                            ),
                        }
                    }
                },
                ExpressionType::Open => match commit_m(stack, pend1, wvn, ru) {
                    Err(k) => Err(k),
                    Ok(ru1) => match open_m(stack, map, shapes, e, ru1) {
                        Err(k) => Err(k),
                        Ok(p) => compile_from(
                            p.0,
                            map,
                            shapes,
                            e.postfix,
                            Seq::empty(),
                            wvn,
                            p.1,
                        ),
                    },
                },
                ExpressionType::Close => match commit_m(stack, pend1, wvn, ru) {
                    Err(k) => Err(k),
                    Ok(ru1) => match close_m(stack, ru1) {
                        Err(k) => Err(k),
                        Ok(p) => compile_from(
                            p.0,
                            map,
                            shapes,
                            e.postfix,
                            Seq::empty(),
                            wvn,
                            p.1,
                        ),
                    },
                },
                ExpressionType::Escaped => compile_from(
                    stack,
                    map,
                    shapes,
                    e.postfix,
                    pend1.push(PendingModel::Raw(e.content)),
                    wvn,
                    ru,
                ),
                ExpressionType::Comment => compile_from(
                    stack,
                    map,
                    shapes,
                    e.postfix,
                    pend1,
                    wvn,
                    ru,
                ),
            }
        },
    }
}

/// What compiling a whole template yields: the generated code, the
/// capability names it requires and the top-level variable paths it
/// references, or the failure compilation runs into.
pub open spec fn compile_spec(
    src: Seq<char>,
    root_var: Option<Seq<char>>,
    wvn: Seq<char>,
    map: Seq<(Seq<char>, BlockFactory)>,
    shapes: Seq<(Seq<char>, VariableShape)>,
) -> Result<RustModel, ErrorKind> {
    compile_from(
        seq![ScopeModel { opened: BlockModel::Root(root_var), depth: 0 }],
        map,
        shapes,
        src,
        Seq::empty(),
        wvn,
        RustModel { using: Seq::empty(), code: Seq::empty(), top_level_vars: Seq::empty() },
    )
}

impl Compiler {
    /// A compiler over the given options and helper registry.
    pub fn new(options: Options, block_map: BlockMap) -> (r: Self)
        ensures
            r.options == options,
            map_entries(&r.block_map) == map_entries(&block_map),
    {
        Compiler { options, block_map }
    }

    /// Queues the pending write of an interpolation: a `format` helper
    /// with a string-literal first argument becomes a format directive,
    /// anything else an interpolation slot.
    fn select_write<'a>(
        expression: &Expression<'a>,
        uses: &'static str,
        display: &'static str,
    ) -> (r: ParseResult<PendingWrite<'a>>)
        ensures
            match r {
                Ok(p) => select_write_m(expression@, uses@, display@) == Ok::<
                    PendingModel,
                    ErrorKind,
                >(p@),
                Err(pe) => select_write_m(expression@, uses@, display@) == Err::<
                    PendingModel,
                    ErrorKind,
                >(pe.kind),
            },
    {
        let plain = PendingWrite::Expression((*expression, uses, display));
        let token = match Token::first(expression.content) {
            Err(pe) => {
                return Err(pe);
            },
            Ok(None) => {
                return Ok(plain);
            },
            Ok(Some(t)) => t,
        };
        match token.token_type {
            TokenType::Variable => {},
            _ => {
                return Ok(plain);
            },
        }
        if !str_eq(token.value, "format") {
            return Ok(plain);
        }
        let pattern = match token.next() {
            Err(pe) => {
                return Err(pe);
            },
            Ok(None) => {
                return Err(
                    ParseError::new(
                        ErrorKind::WrongArgumentCount,
                        "format requires 2 arguments",
                        expression.around(),
                    ),
                );
            },
            Ok(Some(t)) => t,
        };
        let value = match pattern.next() {
            Err(_) => {
                return Err(
                    ParseError::new(
                        ErrorKind::WrongArgumentCount,
                        "format requires 2 arguments",
                        expression.around(),
                    ),
                );
            },
            Ok(None) => {
                return Err(
                    ParseError::new(
                        ErrorKind::WrongArgumentCount,
                        "format requires 2 arguments",
                        expression.around(),
                    ),
                );
            },
            Ok(Some(t)) => t,
        };
        let is_literal = match pattern.token_type {
            TokenType::Literal => true,
            _ => false,
        };
        let pat_len = pattern.value.unicode_len();
        if is_literal && pat_len >= 2 && pattern.value.get_char(0) == '"' && pattern.value.get_char(
            pat_len - 1,
        ) == '"' {
            match value.next() {
                Err(pe) => Err(pe),
                Ok(Some(_)) => Err(
                    ParseError::new(
                        ErrorKind::WrongArgumentCount,
                        "format requires 2 arguments",
                        expression.around(),
                    ),
                ),
                Ok(None) => Ok(
                    PendingWrite::Format(
                        (
                            expression.raw,
                            pattern.value.substring_char(1, pat_len - 1),
                            value.value,
                        ),
                    ),
                ),
            }
        } else {
            Err(
                ParseError::new(
                    ErrorKind::FormatNotLiteral,
                    "first argument of format must be a string literal",
                    expression.around(),
                ),
            )
        }
    }

    /// Compiles a template into code for the configured sink, gathering
    /// the needed capability names and the referenced top-level variables.
    #[verifier::rlimit(100)]
    #[verifier::spinoff_prover]
    pub fn compile(&self, src: &str) -> (r: ParseResult<Rust>)
        ensures
            match r {
                Ok(out) => compile_spec(
                    src@,
                    opt_name(self.options.root_var_name),
                    self.options.write_var_name@,
                    map_entries(&self.block_map),
                    shapes_view(&self.options.variable_types),
                ) == Ok::<RustModel, ErrorKind>(out@),
                Err(pe) => compile_spec(
                    src@,
                    opt_name(self.options.root_var_name),
                    self.options.write_var_name@,
                    map_entries(&self.block_map),
                    shapes_view(&self.options.variable_types),
                ) == Err::<RustModel, ErrorKind>(pe.kind),
            },
    {
        let mut compile = Compile::new(
            self.options.root_var_name,
            &self.block_map,
            &self.options.variable_types,
        );
        let mut rust = Rust::new();
        let mut pending: Vec<PendingWrite> = Vec::new();
        let ghost total = compile_spec(
            src@,
            opt_name(self.options.root_var_name),
            self.options.write_var_name@,
            map_entries(&self.block_map),
            shapes_view(&self.options.variable_types),
        );
        let mut rest = src;
        let mut rest_len = rest.unicode_len();
        proof {
            assert(compile.stack_model() =~= seq![
                ScopeModel {
                    opened: BlockModel::Root(opt_name(self.options.root_var_name)),
                    depth: 0,
                },
            ]);
            assert(pending_view(pending@) =~= Seq::<PendingModel>::empty());
            assert(rust@ =~= (RustModel {
                using: Seq::empty(),
                code: Seq::empty(),
                top_level_vars: Seq::empty(),
            }));
        }
        loop
            invariant
                compile.wf(),
                compile.block_map == &self.block_map,
                compile.variable_types == &self.options.variable_types,
                rest_len == rest@.len(),
                total == compile_spec(
                    src@,
                    opt_name(self.options.root_var_name),
                    self.options.write_var_name@,
                    map_entries(&self.block_map),
                    shapes_view(&self.options.variable_types),
                ),
                total == compile_from(
                    compile.stack_model(),
                    map_entries(&self.block_map),
                    shapes_view(&self.options.variable_types),
                    rest@,
                    pending_view(pending@),
                    self.options.write_var_name@,
                    rust@,
                ),
            decreases rest_len,
        {
            proof {
                crate::expression::lemma_scan_consumes(rest@);
            }
            let expr_opt = match Expression::from(rest) {
                Err(pe) => {
                    return Err(pe);
                },
                Ok(o) => o,
            };
            let expr = match expr_opt {
                None => {
                    if rest_len > 0 {
                        push_pending(&mut pending, PendingWrite::Raw(rest));
                    }
                    match compile.commit_pending(&self.options, &mut pending, &mut rust) {
                        Err(pe) => {
                            return Err(pe);
                        },
                        Ok(()) => {},
                    }
                    if compile.open_stack.len() != 1 {
                        return Err(
                            ParseError {
                                kind: ErrorKind::UnclosedBlock,
                                message: String::from_str("unclosed block at end of input"),
                            },
                        );
                    }
                    return Ok(rust);
                },
                Some(expr) => expr,
            };
            if !expr.prefix.is_empty() {
                push_pending(&mut pending, PendingWrite::Raw(expr.prefix));
            }
            match expr.expression_type {
                ExpressionType::Raw => {
                    let p = match Compiler::select_write(&expr, "AsDisplay", ".as_display()") {
                        Err(pe) => {
                            return Err(pe);
                        },
                        Ok(p) => p,
                    };
                    push_pending(&mut pending, p);
                },
                ExpressionType::HtmlEscaped => {
                    if str_eq(crate::text::trim_str(expr.content), "else") {
                        match compile.commit_pending(&self.options, &mut pending, &mut rust) {
                            Err(pe) => {
                                return Err(pe);
                            },
                            Ok(()) => {},
                        }
                        match compile.handle_else(&expr, &mut rust) {
                            Err(pe) => {
                                return Err(pe);
                            },
                            Ok(()) => {},
                        }
                        proof {
                            assert(pending_view(pending@) =~= Seq::<PendingModel>::empty());
                        }
                    } else {
                        let p = match Compiler::select_write(
                            &expr,
                            "AsDisplayHtml",
                            ".as_display_html()",
                        ) {
                            Err(pe) => {
                                return Err(pe);
                            },
                            Ok(p) => p,
                        };
                        push_pending(&mut pending, p);
                    }
                },
                ExpressionType::Open => {
                    match compile.commit_pending(&self.options, &mut pending, &mut rust) {
                        Err(pe) => {
                            return Err(pe);
                        },
                        Ok(()) => {},
                    }
                    match compile.open(expr, &mut rust) {
                        Err(pe) => {
                            return Err(pe);
                        },
                        Ok(()) => {},
                    }
                    proof {
                        assert(pending_view(pending@) =~= Seq::<PendingModel>::empty());
                    }
                },
                ExpressionType::Close => {
                    match compile.commit_pending(&self.options, &mut pending, &mut rust) {
                        Err(pe) => {
                            return Err(pe);
                        },
                        Ok(()) => {},
                    }
                    match compile.close(expr, &mut rust) {
                        Err(pe) => {
                            return Err(pe);
                        },
                        Ok(()) => {},
                    }
                    proof {
                        assert(pending_view(pending@) =~= Seq::<PendingModel>::empty());
                    }
                },
                ExpressionType::Escaped => {
                    push_pending(&mut pending, PendingWrite::Raw(expr.content));
                },
                ExpressionType::Comment => {},
            }
            rest = expr.postfix;
            rest_len = rest.unicode_len();
        }
    }
}

// ---------------------------------------------------------------------------
// Laws of the compiler
// ---------------------------------------------------------------------------

/// Law: a template holding no delimiter pair compiles to exactly one
/// verbatim emission of the whole input, unchanged but for format-string
/// escaping; an empty template compiles to no emission at all.  Nothing
/// else is emitted, no capability is required and no variable is
/// referenced.
pub proof fn lemma_verbatim_roundtrip(
    src: Seq<char>,
    root_var: Option<Seq<char>>,
    wvn: Seq<char>,
    map: Seq<(Seq<char>, BlockFactory)>,
    shapes: Seq<(Seq<char>, VariableShape)>,
)
    requires
        crate::text::find_from(src, "{{"@, 0) is None,
    ensures
        src.len() > 0 ==> compile_spec(src, root_var, wvn, map, shapes) == Ok::<
            RustModel,
            ErrorKind,
        >(
            RustModel {
                using: Seq::empty(),
                code: "write!("@ + wvn + ", \""@ + escape_seq(src) + "\""@ + ")?;"@,
                top_level_vars: Seq::empty(),
            },
        ),
        src.len() == 0 ==> compile_spec(src, root_var, wvn, map, shapes) == Ok::<
            RustModel,
            ErrorKind,
        >(
            RustModel { using: Seq::empty(), code: Seq::empty(), top_level_vars: Seq::empty() },
        ),
{
    let stack = seq![ScopeModel { opened: BlockModel::Root(root_var), depth: 0 }];
    let ru0 = RustModel { using: Seq::empty(), code: Seq::empty(), top_level_vars: Seq::empty() };
    assert(crate::expression::scan(src) == Ok::<Option<crate::expression::ExprModel>, ErrorKind>(
        None,
    ));
    if src.len() > 0 {
        let pend = Seq::<PendingModel>::empty().push(PendingModel::Raw(src));
        assert(pend.len() == 1);
        assert(pend.subrange(1, 1) =~= Seq::<PendingModel>::empty());
        assert(fmt_parts(pend.subrange(1, 1)) == fmt_parts(Seq::<PendingModel>::empty()));
        assert(fmt_parts(Seq::<PendingModel>::empty()) =~= Seq::<char>::empty());
        assert(fmt_parts(pend) =~= escape_seq(src));
        let ru1 = push_code(ru0, "write!("@ + wvn + ", \""@ + fmt_parts(pend) + "\""@);
        assert(commit_args(stack, pend.subrange(1, 1), ru1) == Ok::<RustModel, ErrorKind>(ru1));
        assert(commit_args(stack, pend, ru1) == Ok::<RustModel, ErrorKind>(ru1));
        assert(commit_m(stack, pend, wvn, ru0) == Ok::<RustModel, ErrorKind>(
            push_code(ru1, ")?;"@),
        ));
        assert(push_code(ru1, ")?;"@) =~= (RustModel {
            using: Seq::empty(),
            code: "write!("@ + wvn + ", \""@ + escape_seq(src) + "\""@ + ")?;"@,
            top_level_vars: Seq::empty(),
        }));
    } else {
        let pend = Seq::<PendingModel>::empty();
        assert(commit_m(stack, pend, wvn, ru0) == Ok::<RustModel, ErrorKind>(ru0));
    }
}

/// Law: a comment contributes nothing to the compiled output.  Amid plain
/// literal text, compiling `pre {{! c }} post` equals compiling
/// `pre post`.  The surrounding text must really be literal: `pre` and
/// `post` free of braces (a `pre` ending in `{`, such as `"{"`, would fuse
/// with the comment's own delimiter and change how the source scans) and
/// `pre` free of a trailing escape; the comment body non-empty, free of
/// `-`, braces and a trailing `~`.
#[verifier::rlimit(100)]
#[verifier::spinoff_prover]
pub proof fn lemma_comment_inert(
    pre: Seq<char>,
    c: Seq<char>,
    post: Seq<char>,
    root_var: Option<Seq<char>>,
    wvn: Seq<char>,
    map: Seq<(Seq<char>, BlockFactory)>,
    shapes: Seq<(Seq<char>, VariableShape)>,
)
    requires
        forall|k: int|
            0 <= k < pre.len() ==> (#[trigger] pre[k]) != '{' && pre[k] != '}' && pre[k] != '\\',
        forall|k: int| 0 <= k < post.len() ==> (#[trigger] post[k]) != '{',
        c.len() > 0,
        forall|k: int|
            0 <= k < c.len() ==> (#[trigger] c[k]) != '{' && c[k] != '}' && c[k] != '-',
        c[c.len() - 1] != '~',
    ensures
        compile_spec(pre + "{{!"@ + c + "}}"@ + post, root_var, wvn, map, shapes) == compile_spec(
            pre + post,
            root_var,
            wvn,
            map,
            shapes,
        ),
{
    reveal_strlit("{{!");
    reveal_strlit("{{");
    reveal_strlit("}}");
    reveal_strlit("--");
    let full = pre + "{{!"@ + c + "}}"@ + post;
    let plain = pre + post;
    let stack = seq![ScopeModel { opened: BlockModel::Root(root_var), depth: 0 }];
    let ru0 = RustModel { using: Seq::empty(), code: Seq::empty(), top_level_vars: Seq::empty() };
    let lp = pre.len() as int;
    let lc = c.len() as int;
    let len = full.len() as int;

    // The first delimiter pair of `full` opens exactly at the comment.
    assert(full.subrange(lp, lp + 2) =~= "{{"@);
    assert forall|k: int| 0 <= k < lp implies !crate::text::match_at(full, "{{"@, k) by {
        if crate::text::match_at(full, "{{"@, k) {
            assert(full.subrange(k, k + 2)[0] == full[k]);
            assert(full[k] == pre[k]);
        }
    }
    crate::text::lemma_find_from_exact(full, "{{"@, 0, lp);

    // It scans as a comment whose postfix is exactly `post`.
    let sub = full.subrange(lp + 3, len);
    assert(sub =~= c + "}}"@ + post);
    assert(sub[0] == c[0]);
    assert(full[lp + 3] == c[0]);
    assert(!crate::text::match_at(full, "--"@, lp + 3)) by {
        if crate::text::match_at(full, "--"@, lp + 3) {
            assert(full.subrange(lp + 3, lp + 5)[0] == full[lp + 3]);
        }
    }
    assert(sub.subrange(lc, lc + 2) =~= "}}"@);
    assert forall|k: int| 0 <= k < lc implies !crate::text::match_at(sub, "}}"@, k) by {
        if crate::text::match_at(sub, "}}"@, k) {
            assert(sub.subrange(k, k + 2)[0] == sub[k]);
            assert(sub[k] == c[k]);
        }
    }
    crate::text::lemma_find_from_exact(sub, "}}"@, 0, lc);
    assert(sub[lc - 1] == c[lc - 1]);
    assert(full[lp + 2] == '!');
    assert(full[lp - 1] == pre[lp - 1] || lp == 0);
    let e = close_expr(
        ExpressionType::Comment,
        full.subrange(0, lp),
        full,
        lp,
        lp + 3,
        "}}"@,
    )->Ok_0;
    assert(e.postfix =~= post);
    assert(e.prefix =~= pre);
    assert(crate::expression::scan(full) == Ok::<
        Option<crate::expression::ExprModel>,
        ErrorKind,
    >(Some(e)));

    // Neither `post` nor `pre + post` holds a delimiter.
    assert forall|k: int| 0 <= k implies !crate::text::match_at(post, "{{"@, k) by {
        if crate::text::match_at(post, "{{"@, k) {
            assert(post.subrange(k, k + 2)[0] == post[k]);
        }
    }
    crate::text::lemma_no_match_find_none(post, "{{"@, 0);
    assert forall|k: int| 0 <= k implies !crate::text::match_at(plain, "{{"@, k) by {
        if crate::text::match_at(plain, "{{"@, k) {
            assert(plain.subrange(k, k + 2)[0] == plain[k]);
            if k < lp {
                assert(plain[k] == pre[k]);
            } else if k < plain.len() {
                assert(plain[k] == post[k - lp]);
            }
        }
    }
    crate::text::lemma_no_match_find_none(plain, "{{"@, 0);

    // Both sides commit the same queue of verbatim text.
    let pend1 = if pre.len() > 0 {
        Seq::<PendingModel>::empty().push(PendingModel::Raw(pre))
    } else {
        Seq::<PendingModel>::empty()
    };
    assert(compile_spec(full, root_var, wvn, map, shapes) == compile_from(
        stack,
        map,
        shapes,
        post,
        pend1,
        wvn,
        ru0,
    ));
    let pend_l = if post.len() > 0 {
        pend1.push(PendingModel::Raw(post))
    } else {
        pend1
    };
    let pend_r = if plain.len() > 0 {
        Seq::<PendingModel>::empty().push(PendingModel::Raw(plain))
    } else {
        Seq::<PendingModel>::empty()
    };
    assert(compile_from(stack, map, shapes, post, pend1, wvn, ru0) == commit_m(
        stack,
        pend_l,
        wvn,
        ru0,
    ));
    assert(compile_spec(plain, root_var, wvn, map, shapes) == commit_m(stack, pend_r, wvn, ru0));
    lemma_commit_raw_merge(stack, pre, post, wvn, ru0);
}

/// Committing two adjacent verbatim fragments equals committing their
/// concatenation.
proof fn lemma_commit_raw_merge(
    stack: Seq<ScopeModel>,
    pre: Seq<char>,
    post: Seq<char>,
    wvn: Seq<char>,
    ru0: RustModel,
)
    ensures
        ({
            let pend1 = if pre.len() > 0 {
                Seq::<PendingModel>::empty().push(PendingModel::Raw(pre))
            } else {
                Seq::<PendingModel>::empty()
            };
            let pend_l = if post.len() > 0 {
                pend1.push(PendingModel::Raw(post))
            } else {
                pend1
            };
            let pend_r = if (pre + post).len() > 0 {
                Seq::<PendingModel>::empty().push(PendingModel::Raw(pre + post))
            } else {
                Seq::<PendingModel>::empty()
            };
            commit_m(stack, pend_l, wvn, ru0) == commit_m(stack, pend_r, wvn, ru0)
        }),
{
    let pend1 = if pre.len() > 0 {
        Seq::<PendingModel>::empty().push(PendingModel::Raw(pre))
    } else {
        Seq::<PendingModel>::empty()
    };
    let pend_l = if post.len() > 0 {
        pend1.push(PendingModel::Raw(post))
    } else {
        pend1
    };
    let pend_r = if (pre + post).len() > 0 {
        Seq::<PendingModel>::empty().push(PendingModel::Raw(pre + post))
    } else {
        Seq::<PendingModel>::empty()
    };
    lemma_escape_concat(pre, post);
    if pre.len() > 0 && post.len() > 0 {
        assert(pend_l.len() == 2);
        assert(pend_l[0] == PendingModel::Raw(pre));
        assert(pend_l[1] == PendingModel::Raw(post));
        lemma_fmt_parts_single(PendingModel::Raw(post));
        assert(pend_l.subrange(1, 2) =~= seq![PendingModel::Raw(post)]);
        assert(fmt_parts(pend_l) == escape_seq(pre) + escape_seq(post));
        lemma_fmt_parts_single(PendingModel::Raw(pre + post));
        assert(pend_r =~= seq![PendingModel::Raw(pre + post)]);
        assert(fmt_parts(pend_r) == escape_seq(pre + post));
        let ru1 = push_code(ru0, "write!("@ + wvn + ", \""@ + fmt_parts(pend_l) + "\""@);
        assert(fmt_parts(pend_l) == fmt_parts(pend_r));
        assert(commit_args(stack, Seq::<PendingModel>::empty(), ru1) == Ok::<
            RustModel,
            ErrorKind,
        >(ru1));
        let t = pend_l.subrange(1, 2);
        assert(t.len() == 1);
        assert(t[0] == PendingModel::Raw(post));
        assert(t.subrange(1, 1) =~= Seq::<PendingModel>::empty());
        assert(commit_args(stack, t.subrange(1, 1), ru1) == Ok::<RustModel, ErrorKind>(ru1));
        assert(commit_args(stack, t, ru1) == Ok::<RustModel, ErrorKind>(ru1));
        assert(commit_args(stack, pend_l.subrange(1, 2), ru1) == Ok::<RustModel, ErrorKind>(ru1));
        assert(commit_args(stack, pend_l, ru1) == Ok::<RustModel, ErrorKind>(ru1));
        assert(pend_r.subrange(1, 1) =~= Seq::<PendingModel>::empty());
        assert(commit_args(stack, pend_r.subrange(1, 1), ru1) == Ok::<RustModel, ErrorKind>(ru1));
        assert(commit_args(stack, pend_r, ru1) == Ok::<RustModel, ErrorKind>(ru1));
    } else if pre.len() > 0 {
        assert(pre + post =~= pre);
        assert(pend_l =~= pend_r);
    } else if post.len() > 0 {
        assert(pre + post =~= post);
        assert(pend_l =~= pend_r);
    } else {
        assert((pre + post).len() == 0);
        assert(pend_l =~= pend_r);
    }
}

/// The format-string contribution of a single pending element.
proof fn lemma_fmt_parts_single(p: PendingModel)
    ensures
        fmt_parts(seq![p]) == fmt_part(p),
{
    let single = seq![p];
    assert(single.len() == 1);
    assert(single[0] == p);
    assert(single.subrange(1, 1) =~= Seq::<PendingModel>::empty());
    assert(fmt_parts(single.subrange(1, 1)) == fmt_parts(Seq::<PendingModel>::empty()));
    assert(fmt_parts(Seq::<PendingModel>::empty()) =~= Seq::<char>::empty());
    assert(fmt_part(p) + Seq::<char>::empty() =~= fmt_part(p));
}

} // verus!
