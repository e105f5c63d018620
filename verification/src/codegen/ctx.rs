use crate::parser::ast::{Type, TypeModel};
use crate::util::text::same_text;
use vstd::prelude::*;

verus! {

/// The stack of a function that is being compiled: where its top is, how
/// far it ever reached, and where its variables lie.
pub struct StackContext {
    pub stack_extent: i32,
    pub stack_pos: i32,
    pub uid: u64,
    /// The offset and the type of each variable; no name occurs twice.
    pub variable_positions: Vec<(String, (i32, Type))>,
    /// Every position that the top of the stack had, in order.
    pub observed: Ghost<Seq<int>>,
}

/// The model of a [`StackContext`].
pub struct StackModel {
    pub stack_extent: int,
    pub stack_pos: int,
    pub uid: u64,
    pub variables: Seq<(Seq<char>, (i32, TypeModel))>,
    pub observed: Seq<int>,
}

/// The largest of the positions, or 0 when they are all below it.
pub open spec fn highest(positions: Seq<int>) -> int
    decreases positions.len(),
{
    if positions.len() == 0 {
        0
    } else if positions.last() > highest(positions.drop_last()) {
        positions.last()
    } else {
        highest(positions.drop_last())
    }
}

/// The models of a list of variables, in order.
pub open spec fn variables_model(variables: &Vec<(String, (i32, Type))>) -> Seq<
    (Seq<char>, (i32, TypeModel)),
> {
    Seq::new(variables.len() as nat, |i: int| (variables[i].0@, (variables[i].1.0, variables[i].1.1@)))
}

/// The place of the first variable named `name` from `from` on, or the
/// number of variables when there is none.
pub open spec fn variable_place(
    variables: Seq<(Seq<char>, (i32, TypeModel))>,
    name: Seq<char>,
    from: int,
) -> int
    decreases variables.len() - from,
{
    if 0 <= from < variables.len() {
        if variables[from].0 == name {
            from
        } else {
            variable_place(variables, name, from + 1)
        }
    } else {
        variables.len() as int
    }
}

/// Whether a variable named `name` is among the variables.
pub open spec fn has_variable(variables: Seq<(Seq<char>, (i32, TypeModel))>, name: Seq<char>) -> bool {
    variable_place(variables, name, 0) < variables.len()
}

/// The offset and the type of the variable named `name`.
pub open spec fn variable_of(
    variables: Seq<(Seq<char>, (i32, TypeModel))>,
    name: Seq<char>,
) -> (i32, TypeModel) {
    variables[variable_place(variables, name, 0)].1
}

/// The variables after `name` is bound to an offset and a type: a variable
/// of that name is bound anew, else the variable is added behind the
/// others.
pub open spec fn with_variable(
    variables: Seq<(Seq<char>, (i32, TypeModel))>,
    name: Seq<char>,
    offset: i32,
    var_type: TypeModel,
) -> Seq<(Seq<char>, (i32, TypeModel))> {
    let place = variable_place(variables, name, 0);
    if place < variables.len() {
        variables.update(place, (name, (offset, var_type)))
    } else {
        variables.push((name, (offset, var_type)))
    }
}

/// No two variables have the same name.
pub open spec fn distinct_variables(variables: Seq<(Seq<char>, (i32, TypeModel))>) -> bool {
    forall|i: int, j: int|
        0 <= i < j < variables.len() ==> (#[trigger] variables[i]).0 != (#[trigger] variables[j]).0
}

/// The variables of a context as a context that extends it sees them: each
/// offset is counted from the extent of the extended context.
pub open spec fn rebased(variables: Seq<(Seq<char>, (i32, TypeModel))>, extent: int) -> Seq<
    (Seq<char>, (i32, TypeModel)),
> {
    Seq::new(
        variables.len(),
        |i: int| (variables[i].0, ((extent - variables[i].1.0) as i32, variables[i].1.1)),
    )
}

/// Whether every offset counted from `extent` is a 32-bit number.
pub open spec fn can_rebase(variables: Seq<(Seq<char>, (i32, TypeModel))>, extent: int) -> bool {
    forall|i: int|
        0 <= i < variables.len() ==> i32::MIN <= extent - (#[trigger] variables[i]).1.0 <= i32::MAX
}

/// The first variable of a name stands at its place, and no variable before
/// it has the name.
pub proof fn lemma_variable_place(
    variables: Seq<(Seq<char>, (i32, TypeModel))>,
    name: Seq<char>,
    from: int,
)
    requires
        0 <= from <= variables.len(),
    ensures
        from <= variable_place(variables, name, from) <= variables.len(),
        variable_place(variables, name, from) < variables.len() ==> variables[variable_place(
            variables,
            name,
            from,
        )].0 == name,
        forall|i: int|
            from <= i < variable_place(variables, name, from) ==> (#[trigger] variables[i]).0
                != name,
    decreases variables.len() - from,
{
    if from < variables.len() && variables[from].0 != name {
        lemma_variable_place(variables, name, from + 1);
    }
}

/// The largest of the positions is one of them or 0, and none is larger.
pub proof fn lemma_highest(positions: Seq<int>)
    ensures
        forall|i: int| 0 <= i < positions.len() ==> positions[i] <= highest(positions),
        highest(positions) == 0 || exists|i: int|
            0 <= i < positions.len() && positions[i] == highest(positions),
        highest(positions) >= 0,
    decreases positions.len(),
{
    if positions.len() > 0 {
        let front = positions.drop_last();
        lemma_highest(front);
        assert forall|i: int| 0 <= i < positions.len() implies positions[i] <= highest(
            positions,
        ) by {
            if i < front.len() {
                assert(front[i] == positions[i]);
            }
        }
        if highest(positions) != 0 {
            if positions.last() > highest(front) {
                assert(positions[positions.len() - 1] == highest(positions));
            } else {
                let i = choose|i: int| 0 <= i < front.len() && front[i] == highest(front);
                assert(positions[i] == highest(positions));
            }
        }
    }
}

impl View for StackContext {
    type V = StackModel;

    open spec fn view(&self) -> StackModel {
        StackModel {
            stack_extent: self.stack_extent as int,
            stack_pos: self.stack_pos as int,
            uid: self.uid,
            variables: variables_model(&self.variable_positions),
            observed: self.observed@,
        }
    }
}

/// The extent of a stack is the largest position that its top ever had, the
/// last of these positions is where its top is, and no two variables have
/// the same name.
pub open spec fn well_formed(stack: StackModel) -> bool {
    &&& stack.observed.len() > 0
    &&& stack.observed[0] == 0
    &&& stack.observed.last() == stack.stack_pos
    &&& stack.stack_extent == highest(stack.observed)
    &&& distinct_variables(stack.variables)
}

/// The stack after its top moved to `stack_pos`.
pub open spec fn moved(stack: StackModel, stack_pos: int) -> StackModel {
    StackModel {
        stack_pos,
        stack_extent: if stack_pos > stack.stack_extent {
            stack_pos
        } else {
            stack.stack_extent
        },
        observed: stack.observed.push(stack_pos),
        ..stack
    }
}

/// Moving the top of a stack keeps the stack well formed.
pub proof fn lemma_moved_well_formed(stack: StackModel, stack_pos: int)
    requires
        well_formed(stack),
    ensures
        well_formed(moved(stack, stack_pos)),
{
    assert(stack.observed.push(stack_pos).drop_last() =~= stack.observed);
}

/// The top of a well formed stack never lies above its extent, and the
/// extent is not negative.
pub proof fn lemma_top_within_extent(stack: StackModel)
    requires
        well_formed(stack),
    ensures
        stack.stack_pos <= stack.stack_extent,
        0 <= stack.stack_extent,
{
    lemma_highest(stack.observed);
}

/// The extent of a stack never shrinks when its top moves, and it is the
/// larger of the old extent and the new top.
pub proof fn lemma_extent_grows(stack: StackModel, stack_pos: int)
    requires
        well_formed(stack),
    ensures
        moved(stack, stack_pos).stack_extent >= stack.stack_extent,
        moved(stack, stack_pos).stack_extent >= stack_pos,
        moved(stack, stack_pos).stack_extent == stack.stack_extent || moved(
            stack,
            stack_pos,
        ).stack_extent == stack_pos,
        moved(stack, stack_pos).variables == stack.variables,
{
}

impl StackContext {
    /// This stack is well formed.
    pub open spec fn wf(&self) -> bool {
        well_formed(self@)
    }

    /// An empty stack without variables.
    pub fn new(uid: u64) -> (stack: StackContext)
        ensures
            stack.wf(),
            stack@ == (StackModel {
                stack_extent: 0,
                stack_pos: 0,
                uid,
                variables: Seq::empty(),
                observed: seq![0int],
            }),
    {
        let stack = StackContext {
            uid,
            stack_extent: 0,
            stack_pos: 0,
            variable_positions: Vec::new(),
            observed: Ghost(Seq::<int>::empty().push(0)),
        };
        assert(stack@.variables =~= Seq::empty());
        assert(Seq::<int>::empty().push(0).drop_last() =~= Seq::<int>::empty());
        assert(highest(Seq::<int>::empty()) == 0);
        assert(highest(Seq::<int>::empty().push(0)) == 0);
        assert(Seq::<int>::empty().push(0) =~= seq![0int]);
        stack
    }

    /// Whether `extend_from` may be called with `context`.
    pub fn can_extend_from(context: &StackContext) -> (can: bool)
        ensures
            can == can_rebase(context@.variables, context@.stack_extent),
    {
        let mut i: usize = 0;
        while i < context.variable_positions.len()
            invariant
                i <= context.variable_positions.len(),
                forall|j: int|
                    0 <= j < i ==> i32::MIN <= context@.stack_extent - (
                    #[trigger] context@.variables[j]).1.0 <= i32::MAX,
            decreases context.variable_positions.len() - i,
        {
            let offset = context.stack_extent as i64 - context.variable_positions[i].1.0 as i64;
            if offset < i32::MIN as i64 || offset > i32::MAX as i64 {
                assert(context@.variables[i as int].1.0 == context.variable_positions[i as int].1.0);
                return false;
            }
            assert(context@.variables[i as int].1.0 == context.variable_positions[i as int].1.0);
            i += 1;
        }
        true
    }

    /// An empty stack that sees the variables of `context`, each at the
    /// offset counted from the extent of `context`.
    pub fn extend_from(uid: u64, context: &StackContext) -> (stack: StackContext)
        requires
            context.wf(),
            can_rebase(context@.variables, context@.stack_extent),
        ensures
            stack.wf(),
            stack@ == (StackModel {
                stack_extent: 0,
                stack_pos: 0,
                uid,
                variables: rebased(context@.variables, context@.stack_extent),
                observed: seq![0int],
            }),
    {
        let mut variables: Vec<(String, (i32, Type))> = Vec::new();
        let context_size = context.stack_extent;
        let ghost all = rebased(context@.variables, context@.stack_extent);
        let mut i: usize = 0;
        while i < context.variable_positions.len()
            invariant
                i <= context.variable_positions.len(),
                context_size == context.stack_extent,
                can_rebase(context@.variables, context@.stack_extent),
                all == rebased(context@.variables, context@.stack_extent),
                variables_model(&variables) == all.take(i as int),
            decreases context.variable_positions.len() - i,
        {
            let ghost before = variables_model(&variables);
            assert(context@.variables[i as int].1.0 == context.variable_positions[i as int].1.0);
            let new_offset: i32 = context_size - context.variable_positions[i].1.0;
            let variable = (
                context.variable_positions[i].0.clone(),
                (new_offset, context.variable_positions[i].1.1.duplicate()),
            );
            let ghost added = (variable.0@, (variable.1.0, variable.1.1@));
            variables.push(variable);
            assert(variables_model(&variables) =~= before.push(added));
            assert(variables_model(&variables) =~= all.take(i + 1));
            i += 1;
        }
        assert(variables_model(&variables) =~= all);
        assert(Seq::<int>::empty().push(0).drop_last() =~= Seq::<int>::empty());
        assert(highest(Seq::<int>::empty()) == 0);
        assert(highest(Seq::<int>::empty().push(0)) == 0);
        assert(Seq::<int>::empty().push(0) =~= seq![0int]);
        StackContext {
            uid,
            stack_pos: 0,
            stack_extent: 0,
            variable_positions: variables,
            observed: Ghost(Seq::<int>::empty().push(0)),
        }
    }

    /// Moves the top of the stack to `stack_pos`.
    pub fn move_to(&mut self, stack_pos: i32)
        requires
            old(self).wf(),
        ensures
            final(self).wf(),
            final(self)@ == moved(old(self)@, stack_pos as int),
    {
        proof {
            lemma_moved_well_formed(self@, stack_pos as int);
        }
        self.stack_pos = stack_pos;
        if self.stack_pos > self.stack_extent {
            self.stack_extent = self.stack_pos;
        }
        self.observed = Ghost(self.observed@.push(self.stack_pos as int));
    }

    /// Moves the top of the stack up by `inc` bytes.
    pub fn inc_stack(&mut self, inc: isize)
        requires
            old(self).wf(),
            i32::MIN <= old(self)@.stack_pos + inc <= i32::MAX,
        ensures
            final(self).wf(),
            final(self)@ == moved(old(self)@, old(self)@.stack_pos + inc),
    {
        proof {
            lemma_moved_well_formed(self@, self@.stack_pos + inc);
        }
        self.stack_pos = (self.stack_pos as i64 + inc as i64) as i32;
        if self.stack_pos > self.stack_extent {
            self.stack_extent = self.stack_pos;
        }
        self.observed = Ghost(self.observed@.push(self.stack_pos as int));
    }

    /// Moves the top of the stack down by `dec` bytes.
    pub fn dec_stack(&mut self, dec: isize)
        requires
            old(self).wf(),
            i32::MIN <= old(self)@.stack_pos - dec <= i32::MAX,
        ensures
            final(self).wf(),
            final(self)@ == moved(old(self)@, old(self)@.stack_pos - dec),
            final(self)@.stack_extent >= old(self)@.stack_extent,
    {
        proof {
            lemma_moved_well_formed(self@, self@.stack_pos - dec);
        }
        self.stack_pos = (self.stack_pos as i64 - dec as i64) as i32;
        if self.stack_pos > self.stack_extent {
            self.stack_extent = self.stack_pos;
        }
        self.observed = Ghost(self.observed@.push(self.stack_pos as int));
    }

    /// Binds the variable `name` to an offset and a type.
    #[verifier::loop_isolation(false)]
    pub fn set_var(&mut self, stack_pos: i32, name: &str, var_type: &Type)
        requires
            old(self).wf(),
        ensures
            final(self).wf(),
            final(self)@ == (StackModel {
                variables: with_variable(old(self)@.variables, name@, stack_pos, var_type@),
                ..old(self)@
            }),
    {
        let ghost before = self@.variables;
        let mut place: usize = 0;
        while place < self.variable_positions.len() && !same_text(
            self.variable_positions[place].0.as_str(),
            name,
        )
            invariant
                place <= self.variable_positions.len(),
                self@ == old(self)@,
                variable_place(before, name@, place as int) == variable_place(before, name@, 0),
            decreases self.variable_positions.len() - place,
        {
            place += 1;
        }
        proof {
            lemma_variable_place(before, name@, 0);
        }
        let variable = (String::from_str(name), (stack_pos, var_type.duplicate()));
        if place < self.variable_positions.len() {
            self.variable_positions.set(place, variable);
            assert(self@.variables =~= before.update(place as int, (name@, (stack_pos, var_type@))));
        } else {
            self.variable_positions.push(variable);
            assert(self@.variables =~= before.push((name@, (stack_pos, var_type@))));
        }
    }

    /// The offset and the type of the variable `name`, if it is bound.
    #[verifier::loop_isolation(false)]
    pub fn find_var(&self, name: &str) -> (variable: Option<&(i32, Type)>)
        ensures
            variable is Some <==> has_variable(self@.variables, name@),
            variable matches Some(found) ==> (found.0, found.1@) == variable_of(
                self@.variables,
                name@,
            ),
    {
        let mut place: usize = 0;
        while place < self.variable_positions.len() && !same_text(
            self.variable_positions[place].0.as_str(),
            name,
        )
            invariant
                place <= self.variable_positions.len(),
                variable_place(self@.variables, name@, place as int) == variable_place(
                    self@.variables,
                    name@,
                    0,
                ),
            decreases self.variable_positions.len() - place,
        {
            place += 1;
        }
        if place < self.variable_positions.len() {
            Some(&self.variable_positions[place].1)
        } else {
            None
        }
    }

    /// The offset and the type of the variable `name`, which is bound.
    pub fn get_var(&self, name: &str) -> (variable: &(i32, Type))
        requires
            has_variable(self@.variables, name@),
        ensures
            (variable.0, variable.1@) == variable_of(self@.variables, name@),
    {
        match self.find_var(name) {
            Some(variable) => variable,
            None => &self.variable_positions[0].1,
        }
    }
}

/// The function that is being compiled: its return type and its stack.
pub struct FnContext {
    pub ret_type: Type,
    pub stack_ctx_uid: u64,
}

impl FnContext {
    /// The context of a function with the given return type and stack.
    pub fn new(ret_type: Type, stack_ctx_uid: u64) -> (context: FnContext)
        ensures
            context.ret_type == ret_type,
            context.stack_ctx_uid == stack_ctx_uid,
    {
        FnContext { ret_type, stack_ctx_uid }
    }
}

} // verus!
