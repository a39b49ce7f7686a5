//! The worklist of the derivation: the instances that are still to be
//! planned, the one that is being planned, and those that are done.

use crate::derive::ast::data::texts;
use crate::derive::ast::data::Data;
use crate::derive::ast::data::Generics;
use crate::derive::ast::derive_input::instance_views;
use crate::derive::ast::derive_input::BiplateInstanceMeta;
use crate::derive::ast::derive_input::DeriveInput;
use crate::derive::ast::derive_input::InstanceMeta;
use crate::derive::ast::derive_input::InstanceMetaView;
use crate::derive::ast::typ::BasicType;
use crate::derive::ast::typ::BasicTypeView;
use std::collections::VecDeque;
use vstd::prelude::*;
use vstd::string::StringExecFns;

verus! {

/// The first `n` of `args`, written one after the other with a comma
/// between them, as tokens are: with a space on either side of the comma.
pub open spec fn joined(args: Seq<Seq<char>>, n: nat) -> Seq<char>
    decreases n,
{
    if n == 0 || n > args.len() {
        Seq::empty()
    } else if n == 1 {
        args[0]
    } else {
        joined(args, (n - 1) as nat) + " , "@ + args[n - 1]
    }
}

/// The type named `ident` with its arguments written out, as tokens are:
/// with a space between one token and the next.
pub open spec fn written(ident: Seq<char>, args: Seq<Seq<char>>) -> Seq<char> {
    ident + " < "@ + joined(args, args.len()) + " >"@
}

/// The type that a declaration declares, as it is named where a traversal
/// is derived for it: with its arguments written out where it has type
/// parameters and no others.
pub open spec fn declared_type(data: Data) -> BasicTypeView {
    BasicTypeView {
        text: if data.params()@.any_generic_params() {
            written(data.name(), data.params()@.arguments())
        } else {
            data.name()
        },
        base: data.name(),
    }
}

impl BasicType {
    /// The type that `data` declares, as it is named where a traversal is
    /// derived for it.
    pub fn from(data: &Data) -> (r: Self)
        ensures
            r@ == declared_type(*data),
    {
        let ident = data.ident();
        let generics = data.generics();
        if generics.any_generic_params() {
            let args = generics.as_generic_arguments();
            let mut text = ident.clone();
            text.append(" < ");
            let ghost head = text@;
            let mut i: usize = 0;
            assert(text@ =~= head + joined(texts(args@), 0));
            while i < args.len()
                invariant
                    i <= args.len(),
                    text@ == head + joined(texts(args@), i as nat),
                decreases args.len() - i,
            {
                if i > 0 {
                    text.append(" , ");
                }
                text.append(args[i].as_str());
                assert(text@ =~= head + joined(texts(args@), (i + 1) as nat));
                i += 1;
            }
            text.append(" >");
            assert(text@ =~= written(ident@, texts(args@)));
            BasicType::new(text, ident)
        } else {
            BasicType::new(ident.clone(), ident)
        }
    }
}

/// The model of a [`ParserState`], but for the declaration, which it holds
/// as it was given.
pub struct ParserStateView {
    /// The type we are deriving traversals on.
    pub from: BasicTypeView,
    /// The current target type.
    pub to: Option<BasicTypeView>,
    /// The instance being planned.
    pub current_instance: Option<InstanceMetaView>,
    /// Instances left to plan: the next one is the last.
    pub instances_to_generate: Seq<InstanceMetaView>,
    /// Instances planned, in the order in which they were.
    pub instances_generated: Seq<InstanceMetaView>,
}

impl ParserStateView {
    /// The state before the first instance: every instance declared is
    /// still to be planned, and before them all the traversal of the type
    /// to itself, which is planned for every type.
    pub open spec fn initial(from: BasicTypeView, declared: Seq<InstanceMetaView>) -> Self {
        ParserStateView {
            from,
            to: None,
            current_instance: None,
            instances_to_generate: seq![
                InstanceMetaView::Biplate { to: from, walk_into: Seq::empty() },
            ] + declared,
            instances_generated: Seq::empty(),
        }
    }

    /// The target type of an instance for the type `from`.
    pub open spec fn target(from: BasicTypeView, instance: InstanceMetaView) -> BasicTypeView {
        match instance {
            InstanceMetaView::Uniplate { .. } => from,
            InstanceMetaView::Biplate { to, .. } => to,
        }
    }

    /// The state after the step to the next instance: the current instance
    /// is done, and the last of those still to be planned is current.
    pub open spec fn advanced(self) -> Self {
        let generated = match self.current_instance {
            Some(done) => self.instances_generated.push(done),
            None => self.instances_generated,
        };
        if self.instances_to_generate.len() > 0 {
            let next = self.instances_to_generate.last();
            ParserStateView {
                from: self.from,
                to: Some(Self::target(self.from, next)),
                current_instance: Some(next),
                instances_to_generate: self.instances_to_generate.drop_last(),
                instances_generated: generated,
            }
        } else {
            ParserStateView {
                from: self.from,
                to: None,
                current_instance: None,
                instances_to_generate: self.instances_to_generate,
                instances_generated: generated,
            }
        }
    }
}

/// State variables for the derivation.
#[derive(Debug, PartialEq, Eq)]
pub struct ParserState {
    /// The type we are deriving traversals on.
    pub from: BasicType,
    /// The current target type.
    pub to: Option<BasicType>,
    /// The data structure itself.
    pub data: Data,
    /// Information about the current instance being planned.
    pub current_instance: Option<InstanceMeta>,
    /// Instances left to plan.
    pub instances_to_generate: VecDeque<InstanceMeta>,
    /// Instances planned.
    pub instances_generated: VecDeque<InstanceMeta>,
}

impl View for ParserState {
    type V = ParserStateView;

    open spec fn view(&self) -> ParserStateView {
        ParserStateView {
            from: self.from@,
            to: match self.to {
                Some(t) => Some(t@),
                None => None,
            },
            current_instance: match self.current_instance {
                Some(c) => Some(c@),
                None => None,
            },
            instances_to_generate: instance_views(self.instances_to_generate@),
            instances_generated: instance_views(self.instances_generated@),
        }
    }
}

impl ParserState {
    /// The state before the first instance of `inp`.
    pub fn new(inp: DeriveInput) -> (r: Self)
        ensures
            r.data == inp.data,
            r@ == ParserStateView::initial(
                declared_type(inp.data),
                instance_views(inp.instance_metadata@),
            ),
    {
        let data = inp.data;
        let from = BasicType::from(&data);
        let mut declared = inp.instance_metadata;
        let ghost all = declared@;
        let mut instances_to_generate: VecDeque<InstanceMeta> = VecDeque::new();
        while declared.len() > 0
            invariant
                declared@.len() <= all.len(),
                declared@ == all.take(declared@.len() as int),
                instances_to_generate@ == all.skip(declared@.len() as int),
            decreases declared.len(),
        {
            let ghost n = declared@.len();
            let meta = declared.pop().unwrap();
            instances_to_generate.push_front(meta);
            assert(declared@ =~= all.take(n - 1));
            assert(instances_to_generate@ =~= all.skip(n - 1));
        }
        assert(instances_to_generate@ =~= all);

        // always plan the traversal of the type to itself
        let first = InstanceMeta::Biplate(
            BiplateInstanceMeta { to: from.clone(), walk_into: Vec::new() },
        );
        assert(texts(Seq::<String>::empty()) =~= Seq::empty());
        instances_to_generate.push_front(first);
        let r = ParserState {
            current_instance: None,
            to: None,
            instances_to_generate,
            instances_generated: VecDeque::new(),
            from,
            data,
        };
        assert(r@.instances_to_generate =~= ParserStateView::initial(
            declared_type(inp.data),
            instance_views(all),
        ).instances_to_generate);
        assert(r@.instances_generated =~= Seq::empty());
        r
    }

    /// Steps to the next instance to plan: the last of those that are left.
    ///
    /// The instance that was current is done. Returns nothing when no
    /// instance is left.
    pub fn next_instance(&mut self) -> (r: Option<()>)
        ensures
            final(self).data == old(self).data,
            final(self)@ == old(self)@.advanced(),
            r is Some == (old(self)@.instances_to_generate.len() > 0),
    {
        let ghost before_left = instance_views(self.instances_to_generate@);
        let ghost before_done = instance_views(self.instances_generated@);
        let next_instance = self.instances_to_generate.pop_back();
        let mut current: Option<InstanceMeta> = None;
        std::mem::swap(&mut self.current_instance, &mut current);
        if let Some(current_instance) = current {
            self.instances_generated.push_back(current_instance);
            assert(instance_views(self.instances_generated@) =~= before_done.push(
                current_instance@,
            ));
        }
        self.current_instance = next_instance;
        self.to = match &self.current_instance {
            Some(InstanceMeta::Uniplate(_)) => Some(self.from.clone()),
            Some(InstanceMeta::Biplate(b)) => Some(b.to.clone()),
            None => None,
        };
        proof {
            if before_left.len() > 0 {
                assert(instance_views(self.instances_to_generate@) =~= before_left.drop_last());
            } else {
                assert(instance_views(self.instances_to_generate@) =~= before_left);
            }
        }
        match &self.current_instance {
            Some(_) => Some(()),
            None => None,
        }
    }
}

} // verus!
