//! The extension surface: the named operations through which the database
//! engine reaches the policy engine, on the state of one connection.

use vstd::prelude::*;

use crate::context::ctx_stack::{name_view, ContextStack, FrameView};
use crate::context::sec_ctx::values_of;
use crate::label::define::{
    define_label, find_expr, is_visible, max_id, visible, DefineError, LabelRowView, LabelTable,
};
use crate::label::parse::parse_spec;
use crate::label::{rank_of, LevelTable};
use crate::table::StrTable;
use crate::text::views;
use crate::views::bump_generation::{
    assert_fresh, bump_generation, bumped, is_stale, refreshed, FreshnessMeta, FreshnessView,
};
use crate::views::refresh_views::{refresh_statements, refresh_views};
use crate::views::register_table::{
    check_result, register_table, with_columns, with_table, Catalog, PhysicalTable,
    ValidationError,
};
use crate::views::{column_views, table_views, SecTableView};

verus! {

/// Why an operation of the policy engine failed.
#[derive(Debug, Clone, Copy, PartialEq, Eq, Structural)]
pub enum PolicyError {
    /// The views were built under a context that has changed since: call
    /// `refresh_views`.
    Stale,
    /// The base frame of the context stack cannot be popped.
    CannotPopBase,
    /// The expression is not a label.
    Parse,
    /// The label table has no id left.
    NoFreeId,
    /// The table cannot be registered.
    Validation(ValidationError),
    /// A registered table has no primary key.
    MissingPrimaryKey,
    /// The generation counter cannot be raised any further.
    GenerationExhausted,
}

/// The policy state of one connection.
pub struct Session {
    pub stack: ContextStack,
    pub labels: LabelTable,
    pub levels: LevelTable,
    pub catalog: Catalog,
    pub meta: FreshnessMeta,
}

impl Session {
    /// The state of a new connection: a fresh context stack, nothing defined
    /// or registered, generation zero.
    pub fn new() -> (r: Self)
        ensures
            r.stack@ == ContextStack::fresh(),
            r.labels@.len() == 0,
            r.levels@ == Map::<Seq<char>, Map<Seq<char>, i64>>::empty(),
            r.catalog.tables@.len() == 0,
            r.catalog.columns@.len() == 0,
            !is_stale(r.meta@),
            r.meta@.generation == 0,
    {
        Session {
            stack: ContextStack::default(),
            labels: LabelTable::new(),
            levels: LevelTable::new(),
            catalog: Catalog::new(),
            meta: FreshnessMeta::new(),
        }
    }

    /// Whether everything but the context stack and the generation is as it
    /// was.
    pub open spec fn same_definitions(&self, other: &Session) -> bool {
        &&& self.labels == other.labels
        &&& self.levels == other.levels
        &&& self.catalog == other.catalog
    }

    /// Adds `value` to the values that the top frame claims for `key`, and
    /// bumps the generation. Fails, changing nothing, only when the
    /// generation is exhausted.
    pub fn set_attr(&mut self, key: &str, value: &str) -> (r: Result<i64, PolicyError>)
        ensures
            final(self).same_definitions(old(self)),
            old(self).meta@.generation >= i64::MAX ==> r == Err::<i64, PolicyError>(
                PolicyError::GenerationExhausted,
            ) && final(self).stack@ == old(self).stack@ && final(self).meta@ == old(self).meta@,
            old(self).meta@.generation < i64::MAX ==> r == Ok::<i64, PolicyError>(1) && final(self).meta@ == bumped(old(self).meta@) && is_stale(final(self).meta@) && final(self).stack@
                == old(self).stack@.update(
                old(self).stack@.len() - 1,
                FrameView {
                    name: old(self).stack@.last().name,
                    ctx: old(self).stack@.last().ctx.insert(
                        key@,
                        values_of(old(self).stack@.last().ctx, key@).insert(value@),
                    ),
                },
            ),
    {
        match bump_generation(&mut self.meta) {
            Err(_) => { return Err(PolicyError::GenerationExhausted); },
            Ok(()) => {},
        }
        self.stack.set_attr(key, value);
        Ok(1)
    }

    /// Replaces the context stack with a fresh base frame, and bumps the
    /// generation.
    pub fn clear_context(&mut self) -> (r: Result<i64, PolicyError>)
        ensures
            final(self).same_definitions(old(self)),
            old(self).meta@.generation >= i64::MAX ==> r == Err::<i64, PolicyError>(
                PolicyError::GenerationExhausted,
            ) && final(self).stack@ == old(self).stack@ && final(self).meta@ == old(self).meta@,
            old(self).meta@.generation < i64::MAX ==> r == Ok::<i64, PolicyError>(1) && final(self).meta@ == bumped(old(self).meta@) && is_stale(final(self).meta@) && final(self).stack@
                == ContextStack::fresh(),
    {
        match bump_generation(&mut self.meta) {
            Err(_) => { return Err(PolicyError::GenerationExhausted); },
            Ok(()) => {},
        }
        self.stack.clear();
        Ok(1)
    }

    /// Pushes a copy of the top frame, under `name` if one is given, and bumps
    /// the generation.
    pub fn push_context(&mut self, name: Option<String>) -> (r: Result<i64, PolicyError>)
        ensures
            final(self).same_definitions(old(self)),
            old(self).meta@.generation >= i64::MAX ==> r == Err::<i64, PolicyError>(
                PolicyError::GenerationExhausted,
            ) && final(self).stack@ == old(self).stack@ && final(self).meta@ == old(self).meta@,
            old(self).meta@.generation < i64::MAX ==> r == Ok::<i64, PolicyError>(1) && final(self).meta@ == bumped(old(self).meta@) && is_stale(final(self).meta@) && final(self).stack@
                == old(self).stack@.push(
                FrameView { name: name_view(name), ctx: old(self).stack@.last().ctx },
            ),
    {
        match bump_generation(&mut self.meta) {
            Err(_) => { return Err(PolicyError::GenerationExhausted); },
            Ok(()) => {},
        }
        self.stack.push(name);
        Ok(1)
    }

    /// Removes the top frame, and bumps the generation. The base frame is
    /// never removed: with it alone on the stack the answer is
    /// `CannotPopBase` and nothing changes.
    pub fn pop_context(&mut self) -> (r: Result<i64, PolicyError>)
        ensures
            final(self).same_definitions(old(self)),
            old(self).stack@.len() <= 1 ==> r == Err::<i64, PolicyError>(
                PolicyError::CannotPopBase,
            ) && final(self).stack@ == old(self).stack@ && final(self).meta@ == old(self).meta@,
            old(self).stack@.len() > 1 && old(self).meta@.generation >= i64::MAX ==> r == Err::<
                i64,
                PolicyError,
            >(PolicyError::GenerationExhausted) && final(self).stack@ == old(self).stack@ && final(self).meta@ == old(self).meta@,
            old(self).stack@.len() > 1 && old(self).meta@.generation < i64::MAX ==> r == Ok::<
                i64,
                PolicyError,
            >(1) && final(self).meta@ == bumped(old(self).meta@) && is_stale(final(self).meta@)
                && final(self).stack@ == old(self).stack@.drop_last(),
    {
        proof {
            self.stack.lemma_base();
        }
        if self.stack.is_base() {
            return Err(PolicyError::CannotPopBase);
        }
        match bump_generation(&mut self.meta) {
            Err(_) => { return Err(PolicyError::GenerationExhausted); },
            Ok(()) => {},
        }
        let _ = self.stack.pop();
        Ok(1)
    }

    /// Defines a label and returns its id: the id it has if the expression is
    /// known, a new one if it is not. An expression that is no label is
    /// refused with `Parse`.
    pub fn define_label(&mut self, expr: &str) -> (r: Result<i64, PolicyError>)
        ensures
            final(self).stack == old(self).stack,
            final(self).levels == old(self).levels,
            final(self).catalog == old(self).catalog,
            final(self).meta == old(self).meta,
            parse_spec(expr@) is None ==> r == Err::<i64, PolicyError>(PolicyError::Parse) && final(self).labels@ == old(self).labels@,
            parse_spec(expr@) is Some ==> match find_expr(old(self).labels@, expr@) {
                Some(i) => r == Ok::<i64, PolicyError>(old(self).labels@[i].id) && final(self).labels@ == old(self).labels@,
                None => if max_id(old(self).labels@) == i64::MAX {
                    r == Err::<i64, PolicyError>(PolicyError::NoFreeId) && final(self).labels@
                        == old(self).labels@
                } else {
                    r == Ok::<i64, PolicyError>((max_id(old(self).labels@) + 1) as i64) && final(self).labels@ == old(self).labels@.push(
                        LabelRowView {
                            id: (max_id(old(self).labels@) + 1) as i64,
                            expr: expr@,
                            label: parse_spec(expr@),
                        },
                    )
                },
            },
    {
        match define_label(&mut self.labels, expr) {
            Ok(id) => Ok(id),
            Err(DefineError::Parse(_)) => Err(PolicyError::Parse),
            Err(DefineError::NoFreeId) => Err(PolicyError::NoFreeId),
        }
    }

    /// Gives level `name` of attribute `attr` the rank `value`, and returns
    /// that rank.
    pub fn define_level(&mut self, attr: &str, name: &str, value: i64) -> (r: i64)
        ensures
            r == value,
            final(self).stack == old(self).stack,
            final(self).labels == old(self).labels,
            final(self).catalog == old(self).catalog,
            final(self).meta == old(self).meta,
            rank_of(final(self).levels@, attr@, name@) == Some(value),
            forall|a: Seq<char>, n: Seq<char>|
                a != attr@ || n != name@ ==> #[trigger] rank_of(final(self).levels@, a, n)
                    == rank_of(old(self).levels@, a, n),
    {
        self.levels.define_level(attr, name, value)
    }

    /// Whether the effective context satisfies the label with id `label_id`;
    /// true where there is no id.
    pub fn label_visible(&self, label_id: Option<i64>) -> (r: bool)
        ensures
            r == visible(self.labels@, self.levels@, label_id, self.stack@.last().ctx),
    {
        is_visible(&self.labels, &self.levels, label_id, self.stack.effective())
    }

    /// Succeeds exactly when the views were built under the present context;
    /// otherwise fails with `Stale`. This is what every read through a
    /// projected view asks first.
    pub fn assert_fresh(&self) -> (r: Result<i64, PolicyError>)
        ensures
            is_stale(self.meta@) ==> r == Err::<i64, PolicyError>(PolicyError::Stale),
            !is_stale(self.meta@) ==> r == Ok::<i64, PolicyError>(1),
    {
        match assert_fresh(&self.meta) {
            Ok(()) => Ok(1),
            Err(_) => Err(PolicyError::Stale),
        }
    }

    /// The statements that rebuild every view and trigger for the effective
    /// context, to be run in one transaction; the views then count as fresh.
    ///
    /// Fails with `MissingPrimaryKey`, changing nothing, if a table that
    /// keeps its view has no primary key in `keys`.
    pub fn refresh_views(&mut self, keys: &StrTable<Vec<String>>) -> (r: Result<
        Vec<String>,
        PolicyError,
    >)
        ensures
            final(self).same_definitions(old(self)),
            final(self).stack == old(self).stack,
            match refresh_statements(
                table_views(old(self).catalog.tables@),
                column_views(old(self).catalog.columns@),
                keys.map(),
                old(self).labels@,
                old(self).levels@,
                old(self).stack@.last().ctx,
            ) {
                Ok(stmts) => r is Ok && views(r->Ok_0@) == stmts && final(self).meta@ == refreshed(
                    old(self).meta@,
                ) && !is_stale(final(self).meta@),
                Err(_) => r == Err::<Vec<String>, PolicyError>(PolicyError::MissingPrimaryKey)
                    && final(self).meta == old(self).meta,
            },
    {
        match refresh_views(
            &self.catalog,
            keys,
            &self.labels,
            &self.levels,
            self.stack.effective(),
        ) {
            Ok(stmts) => {
                self.meta.mark_refreshed();
                Ok(stmts)
            },
            Err(_) => Err(PolicyError::MissingPrimaryKey),
        }
    }

    /// Registers a physical table, as the engine reports it in `found`, under
    /// a logical name.
    pub fn register_table(
        &mut self,
        logical: &str,
        physical: &str,
        row_label_col: &str,
        table_label_id: Option<i64>,
        insert_label_id: Option<i64>,
        found: &PhysicalTable,
    ) -> (r: Result<i64, PolicyError>)
        ensures
            final(self).stack == old(self).stack,
            final(self).labels == old(self).labels,
            final(self).levels == old(self).levels,
            final(self).meta == old(self).meta,
            match check_result(
                views(found.columns@),
                views(found.primary_key@),
                match found.sql {
                    Some(s) => Some(s@),
                    None => None,
                },
                row_label_col@,
            ) {
                Err(e) => r == Err::<i64, PolicyError>(PolicyError::Validation(e)) && final(self).catalog == old(self).catalog,
                Ok(_) => r == Ok::<i64, PolicyError>(1) && table_views(final(self).catalog.tables@)
                    == with_table(
                    table_views(old(self).catalog.tables@),
                    SecTableView {
                        logical_name: logical@,
                        physical_name: physical@,
                        row_label_col: row_label_col@,
                        table_label_id,
                        insert_label_id,
                        allow_implicit_label: true,
                    },
                ) && column_views(final(self).catalog.columns@) == with_columns(
                    column_views(old(self).catalog.columns@),
                    logical@,
                    views(found.columns@),
                ),
            },
    {
        match register_table(
            &mut self.catalog,
            logical,
            physical,
            row_label_col,
            table_label_id,
            insert_label_id,
            found,
        ) {
            Ok(()) => Ok(1),
            Err(e) => Err(PolicyError::Validation(e)),
        }
    }
}

/// A value as the database engine hands it to an operation.
#[derive(Debug)]
pub enum SqlValue {
    Null,
    Integer(i64),
    Text(String),
}

/// Why a call of an operation was not carried out.
#[derive(Debug, Clone, Copy, PartialEq, Eq, Structural)]
pub enum CallError {
    /// The operation takes another number of arguments. For an operation that
    /// takes none or one, `expected` is -1.
    WrongArity { expected: i32 },
    /// The argument at this position, counted from one, is NULL and must not
    /// be.
    NullArgument { index: usize },
    /// The argument at this position, counted from one, is a number where a
    /// text is due, or a text where a number is due.
    WrongType { index: usize },
}

/// The operations that the policy engine offers to the database engine.
#[derive(Debug, Clone, Copy, PartialEq, Eq, Structural)]
pub enum Operation {
    SetAttr,
    ClearContext,
    PushContext,
    PopContext,
    DefineLabel,
    DefineLevel,
    LabelVisible,
    AssertFresh,
    RefreshViews,
    RegisterTable,
}

/// A call of an operation whose arguments are in order.
#[derive(Debug)]
pub enum Request {
    SetAttr { key: String, value: String },
    ClearContext,
    PushContext { name: Option<String> },
    PopContext,
    DefineLabel { expr: String },
    DefineLevel { attr: String, name: String, value: i64 },
    LabelVisible { label_id: Option<i64> },
    AssertFresh,
    RefreshViews,
    RegisterTable {
        logical: String,
        physical: String,
        row_label_col: String,
        table_label_id: Option<i64>,
        insert_label_id: Option<i64>,
    },
}

/// What an argument must be.
#[derive(Debug, Clone, Copy, PartialEq, Eq, Structural)]
pub enum Expect {
    /// A text.
    Text,
    /// A text, or NULL for none.
    OptionalText,
    /// A number.
    Integer,
    /// A number, or NULL for none.
    OptionalInteger,
}

/// What is wrong with an argument at position `index`, counted from one, if
/// anything is.
pub open spec fn argument_fault(value: SqlValue, expect: Expect, index: usize) -> Option<CallError> {
    match (value, expect) {
        (SqlValue::Null, Expect::Text) => Some(CallError::NullArgument { index }),
        (SqlValue::Null, Expect::Integer) => Some(CallError::NullArgument { index }),
        (SqlValue::Null, _) => None,
        (SqlValue::Integer(_), Expect::Text) => Some(CallError::WrongType { index }),
        (SqlValue::Integer(_), Expect::OptionalText) => Some(CallError::WrongType { index }),
        (SqlValue::Integer(_), _) => None,
        (SqlValue::Text(_), Expect::Integer) => Some(CallError::WrongType { index }),
        (SqlValue::Text(_), Expect::OptionalInteger) => Some(CallError::WrongType { index }),
        (SqlValue::Text(_), _) => None,
    }
}

impl Operation {
    /// The name under which the operation is registered.
    pub open spec fn name_of(self) -> Seq<char> {
        match self {
            Operation::SetAttr => "sec_set_attr"@,
            Operation::ClearContext => "sec_clear_context"@,
            Operation::PushContext => "sec_push_context"@,
            Operation::PopContext => "sec_pop_context"@,
            Operation::DefineLabel => "sec_define_label"@,
            Operation::DefineLevel => "sec_define_level"@,
            Operation::LabelVisible => "sec_label_visible"@,
            Operation::AssertFresh => "sec_assert_fresh"@,
            Operation::RefreshViews => "sec_refresh_views"@,
            Operation::RegisterTable => "sec_register_table"@,
        }
    }

    /// What the operation's arguments must be, in order.
    pub open spec fn signature(self) -> Seq<Expect> {
        match self {
            Operation::SetAttr => seq![Expect::Text, Expect::Text],
            Operation::ClearContext => Seq::empty(),
            Operation::PushContext => seq![Expect::OptionalText],
            Operation::PopContext => Seq::empty(),
            Operation::DefineLabel => seq![Expect::Text],
            Operation::DefineLevel => seq![Expect::Text, Expect::Text, Expect::Integer],
            Operation::LabelVisible => seq![Expect::OptionalInteger],
            Operation::AssertFresh => Seq::empty(),
            Operation::RefreshViews => Seq::empty(),
            Operation::RegisterTable => seq![
                Expect::Text,
                Expect::Text,
                Expect::Text,
                Expect::OptionalInteger,
                Expect::OptionalInteger,
            ],
        }
    }

    /// How many arguments the operation is registered with: -1 for the one
    /// that takes none or one.
    pub open spec fn arity_of(self) -> int {
        if self == Operation::PushContext {
            -1
        } else {
            self.signature().len() as int
        }
    }

    /// Whether the operation takes this many arguments.
    pub open spec fn takes(self, count: int) -> bool {
        if self == Operation::PushContext {
            count == 0 || count == 1
        } else {
            count == self.signature().len()
        }
    }

    /// The first thing that is wrong with the arguments of a call, if anything
    /// is: their number, or else the first argument that is not what it must
    /// be.
    pub open spec fn fault(self, args: Seq<SqlValue>) -> Option<CallError> {
        if !self.takes(args.len() as int) {
            Some(CallError::WrongArity { expected: self.arity_of() as i32 })
        } else {
            first_fault(args, self.signature(), 0)
        }
    }

    /// The name under which the operation is registered.
    pub fn name(self) -> (r: &'static str)
        ensures
            r@ == self.name_of(),
    {
        match self {
            Operation::SetAttr => "sec_set_attr",
            Operation::ClearContext => "sec_clear_context",
            Operation::PushContext => "sec_push_context",
            Operation::PopContext => "sec_pop_context",
            Operation::DefineLabel => "sec_define_label",
            Operation::DefineLevel => "sec_define_level",
            Operation::LabelVisible => "sec_label_visible",
            Operation::AssertFresh => "sec_assert_fresh",
            Operation::RefreshViews => "sec_refresh_views",
            Operation::RegisterTable => "sec_register_table",
        }
    }

    /// How many arguments the operation is registered with.
    pub fn arity(self) -> (r: i32)
        ensures
            r == self.arity_of(),
    {
        match self {
            Operation::SetAttr => 2,
            Operation::ClearContext => 0,
            Operation::PushContext => -1,
            Operation::PopContext => 0,
            Operation::DefineLabel => 1,
            Operation::DefineLevel => 3,
            Operation::LabelVisible => 1,
            Operation::AssertFresh => 0,
            Operation::RefreshViews => 0,
            Operation::RegisterTable => 5,
        }
    }

    fn expects(self) -> (r: Vec<Expect>)
        ensures
            r@ == self.signature(),
    {
        let mut v: Vec<Expect> = Vec::new();
        match self {
            Operation::SetAttr => {
                v.push(Expect::Text);
                v.push(Expect::Text);
            },
            Operation::PushContext => {
                v.push(Expect::OptionalText);
            },
            Operation::DefineLabel => {
                v.push(Expect::Text);
            },
            Operation::DefineLevel => {
                v.push(Expect::Text);
                v.push(Expect::Text);
                v.push(Expect::Integer);
            },
            Operation::LabelVisible => {
                v.push(Expect::OptionalInteger);
            },
            Operation::RegisterTable => {
                v.push(Expect::Text);
                v.push(Expect::Text);
                v.push(Expect::Text);
                v.push(Expect::OptionalInteger);
                v.push(Expect::OptionalInteger);
            },
            _ => {},
        }
        assert(v@ =~= self.signature());
        v
    }

    /// Checks the arguments of a call and puts them in order.
    pub fn request(self, args: &Vec<SqlValue>) -> (r: Result<Request, CallError>)
        ensures
            match self.fault(args@) {
                Some(e) => r is Err && r->Err_0 == e,
                None => r is Ok && asks(r->Ok_0, self, args@),
            },
    {
        let n = args.len();
        let expects = self.expects();
        let count_ok = match self {
            Operation::PushContext => n == 0 || n == 1,
            _ => n == expects.len(),
        };
        if !count_ok {
            return Err(CallError::WrongArity { expected: self.arity() });
        }
        let mut i: usize = 0;
        while i < n
            invariant
                i <= n,
                n == args@.len(),
                n <= expects@.len(),
                expects@ == self.signature(),
                self.takes(n as int),
                first_fault(args@, expects@, 0) == first_fault(args@, expects@, i as int),
                forall|j: int|
                    0 <= j < i ==> argument_fault(
                        #[trigger] args@[j],
                        expects@[j],
                        (j + 1) as usize,
                    ) is None,
            decreases n - i,
        {
            let fault = match (&args[i], expects[i]) {
                (SqlValue::Null, Expect::Text) => Some(CallError::NullArgument { index: i + 1 }),
                (SqlValue::Null, Expect::Integer) => Some(CallError::NullArgument { index: i + 1 }),
                (SqlValue::Null, _) => None,
                (SqlValue::Integer(_), Expect::Text) => Some(CallError::WrongType { index: i + 1 }),
                (SqlValue::Integer(_), Expect::OptionalText) => Some(
                    CallError::WrongType { index: i + 1 },
                ),
                (SqlValue::Integer(_), _) => None,
                (SqlValue::Text(_), Expect::Integer) => Some(CallError::WrongType { index: i + 1 }),
                (SqlValue::Text(_), Expect::OptionalInteger) => Some(
                    CallError::WrongType { index: i + 1 },
                ),
                (SqlValue::Text(_), _) => None,
            };
            assert(fault == argument_fault(args@[i as int], expects@[i as int], (i + 1) as usize));
            match fault {
                Some(e) => {
                    return Err(e);
                },
                None => {},
            }
            i += 1;
        }
        proof {
            assert(self.fault(args@) is None);
            assert forall|j: int| 0 <= j < n && self.signature()[j] == Expect::Text implies text_at(
                args@,
                j,
            ) is Some by {
                assert(argument_fault(args@[j], expects@[j], (j + 1) as usize) is None);
            }
            assert forall|j: int|
                0 <= j < n && self.signature()[j] == Expect::Integer implies integer_at(
                args@,
                j,
            ) is Some by {
                assert(argument_fault(args@[j], expects@[j], (j + 1) as usize) is None);
            }
        }
        let request = match self {
            Operation::SetAttr => Request::SetAttr { key: text(args, 0), value: text(args, 1) },
            Operation::ClearContext => Request::ClearContext,
            Operation::PushContext => Request::PushContext {
                name: if n == 1 {
                    optional_text(args, 0)
                } else {
                    None
                },
            },
            Operation::PopContext => Request::PopContext,
            Operation::DefineLabel => Request::DefineLabel { expr: text(args, 0) },
            Operation::DefineLevel => Request::DefineLevel {
                attr: text(args, 0),
                name: text(args, 1),
                value: match integer(args, 2) {
                    Some(v) => v,
                    None => 0,
                },
            },
            Operation::LabelVisible => Request::LabelVisible { label_id: integer(args, 0) },
            Operation::AssertFresh => Request::AssertFresh,
            Operation::RefreshViews => Request::RefreshViews,
            Operation::RegisterTable => Request::RegisterTable {
                logical: text(args, 0),
                physical: text(args, 1),
                row_label_col: text(args, 2),
                table_label_id: integer(args, 3),
                insert_label_id: integer(args, 4),
            },
        };
        Ok(request)
    }
}

/// The first fault among the arguments from position `from` on.
pub open spec fn first_fault(args: Seq<SqlValue>, expects: Seq<Expect>, from: int) -> Option<CallError>
    decreases args.len() - from,
{
    if from < 0 || from >= args.len() || from >= expects.len() {
        None
    } else {
        match argument_fault(args[from], expects[from], (from + 1) as usize) {
            Some(e) => Some(e),
            None => first_fault(args, expects, from + 1),
        }
    }
}

/// The text of argument `i`, where it is a text.
pub open spec fn text_at(args: Seq<SqlValue>, i: int) -> Option<Seq<char>> {
    if 0 <= i < args.len() {
        match args[i] {
            SqlValue::Text(s) => Some(s@),
            _ => None,
        }
    } else {
        None
    }
}

/// The number of argument `i`, where it is a number.
pub open spec fn integer_at(args: Seq<SqlValue>, i: int) -> Option<i64> {
    if 0 <= i < args.len() {
        match args[i] {
            SqlValue::Integer(v) => Some(v),
            _ => None,
        }
    } else {
        None
    }
}

fn optional_text(args: &Vec<SqlValue>, i: usize) -> (r: Option<String>)
    ensures
        name_view(r) == text_at(args@, i as int),
{
    if i < args.len() {
        match &args[i] {
            SqlValue::Text(s) => Some(s.clone()),
            _ => None,
        }
    } else {
        None
    }
}

fn text(args: &Vec<SqlValue>, i: usize) -> (r: String)
    ensures
        text_at(args@, i as int) is Some ==> Some(r@) == text_at(args@, i as int),
{
    match optional_text(args, i) {
        Some(s) => s,
        None => String::new(),
    }
}

fn integer(args: &Vec<SqlValue>, i: usize) -> (r: Option<i64>)
    ensures
        r == integer_at(args@, i as int),
{
    if i < args.len() {
        match &args[i] {
            SqlValue::Integer(v) => Some(*v),
            _ => None,
        }
    } else {
        None
    }
}

/// Whether `request` is the call of `op` with these arguments: each of its
/// fields is the argument at its position.
pub open spec fn asks(request: Request, op: Operation, args: Seq<SqlValue>) -> bool {
    match request {
        Request::SetAttr { key, value } => op == Operation::SetAttr && Some(key@) == text_at(
            args,
            0,
        ) && Some(value@) == text_at(args, 1),
        Request::ClearContext => op == Operation::ClearContext,
        Request::PushContext { name } => op == Operation::PushContext && name_view(name)
            == text_at(args, 0),
        Request::PopContext => op == Operation::PopContext,
        Request::DefineLabel { expr } => op == Operation::DefineLabel && Some(expr@) == text_at(
            args,
            0,
        ),
        Request::DefineLevel { attr, name, value } => op == Operation::DefineLevel && Some(attr@)
            == text_at(args, 0) && Some(name@) == text_at(args, 1) && Some(value) == integer_at(
            args,
            2,
        ),
        Request::LabelVisible { label_id } => op == Operation::LabelVisible && label_id
            == integer_at(args, 0),
        Request::AssertFresh => op == Operation::AssertFresh,
        Request::RefreshViews => op == Operation::RefreshViews,
        Request::RegisterTable {
            logical,
            physical,
            row_label_col,
            table_label_id,
            insert_label_id,
        } => op == Operation::RegisterTable && Some(logical@) == text_at(args, 0) && Some(
            physical@,
        ) == text_at(args, 1) && Some(row_label_col@) == text_at(args, 2) && table_label_id
            == integer_at(args, 3) && insert_label_id == integer_at(args, 4),
    }
}

/// Marks an operation as one that the database engine can call.
pub trait ScalarFunction {
    /// The operation that the marker stands for.
    fn operation(&self) -> Operation;
}

/// `sec_set_attr(key, value)`
pub struct SetAttr;

/// `sec_clear_context()`
pub struct ClearContext;

/// `sec_push_context([name])`
pub struct PushContext;

/// `sec_pop_context()`
pub struct PopContext;

/// `sec_define_label(expr)`
pub struct DefineLabel;

/// `sec_define_level(attr, name, value)`
pub struct DefineLevel;

/// `sec_label_visible(label_id)`
pub struct RowVisible;

/// `sec_assert_fresh()`
pub struct AssertFresh;

/// `sec_refresh_views()`
pub struct RefreshViews;

/// `sec_register_table(logical, physical, row_label_col, table_label_id,
/// insert_label_id)`
pub struct RegisterTable;

impl ScalarFunction for SetAttr {
    fn operation(&self) -> (r: Operation)
        ensures
            r == Operation::SetAttr,
    {
        Operation::SetAttr
    }
}

impl ScalarFunction for ClearContext {
    fn operation(&self) -> (r: Operation)
        ensures
            r == Operation::ClearContext,
    {
        Operation::ClearContext
    }
}

impl ScalarFunction for PushContext {
    fn operation(&self) -> (r: Operation)
        ensures
            r == Operation::PushContext,
    {
        Operation::PushContext
    }
}

impl ScalarFunction for PopContext {
    fn operation(&self) -> (r: Operation)
        ensures
            r == Operation::PopContext,
    {
        Operation::PopContext
    }
}

impl ScalarFunction for DefineLabel {
    fn operation(&self) -> (r: Operation)
        ensures
            r == Operation::DefineLabel,
    {
        Operation::DefineLabel
    }
}

impl ScalarFunction for DefineLevel {
    fn operation(&self) -> (r: Operation)
        ensures
            r == Operation::DefineLevel,
    {
        Operation::DefineLevel
    }
}

impl ScalarFunction for RowVisible {
    fn operation(&self) -> (r: Operation)
        ensures
            r == Operation::LabelVisible,
    {
        Operation::LabelVisible
    }
}

impl ScalarFunction for AssertFresh {
    fn operation(&self) -> (r: Operation)
        ensures
            r == Operation::AssertFresh,
    {
        Operation::AssertFresh
    }
}

impl ScalarFunction for RefreshViews {
    fn operation(&self) -> (r: Operation)
        ensures
            r == Operation::RefreshViews,
    {
        Operation::RefreshViews
    }
}

impl ScalarFunction for RegisterTable {
    fn operation(&self) -> (r: Operation)
        ensures
            r == Operation::RegisterTable,
    {
        Operation::RegisterTable
    }
}

} // verus!
