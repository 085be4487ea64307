//! A layout that widgets are added to one by one.

use crate::widgets::ref_or_dyn::RefOrDyn;
use ratatui::layout::Constraint as RatatuiConstraint;
use ratatui::layout::Layout;
use ratatui::layout::Rect as RatatuiRect;
use vstd::prelude::*;

verus! {

#[verifier::external_type_specification]
#[verifier::external_body]
pub struct ExLayout(Layout);

/// How much of the area a widget asks for.
#[derive(Clone, Copy, Debug, PartialEq, Eq, Structural)]
pub enum Constraint {
    Min(u16),
    Max(u16),
    Length(u16),
    Percentage(u16),
    Ratio(u32, u32),
    Fill(u16),
}

/// A rectangle of the screen.
#[derive(Clone, Copy, Debug, PartialEq, Eq, Structural)]
pub struct Rect {
    pub x: u16,
    pub y: u16,
    pub width: u16,
    pub height: u16,
}

/// The constraints that a layout splits an area by, in order.
pub uninterp spec fn layout_constraints(layout: Layout) -> Seq<Constraint>;

/// Whether the layout stacks its rectangles from top to bottom. If not, it
/// lines them up from left to right.
pub uninterp spec fn layout_is_vertical(layout: Layout) -> bool;

/// The margin that the layout leaves free on each side of the area: at the
/// left and the right, then at the top and the bottom.
pub uninterp spec fn layout_margin(layout: Layout) -> (u16, u16);

/// What is left of `area` inside `margin`: nothing, at the origin, where
/// the margin takes more than the area has.
pub open spec fn inner(area: Rect, margin: (u16, u16)) -> Rect {
    let sides = if 2 * margin.0 > u16::MAX {
        u16::MAX as int
    } else {
        2 * margin.0
    };
    let ends = if 2 * margin.1 > u16::MAX {
        u16::MAX as int
    } else {
        2 * margin.1
    };
    if area.width < sides || area.height < ends {
        Rect { x: 0, y: 0, width: 0, height: 0 }
    } else {
        Rect {
            x: if area.x + margin.0 > u16::MAX {
                u16::MAX
            } else {
                (area.x + margin.0) as u16
            },
            y: if area.y + margin.1 > u16::MAX {
                u16::MAX
            } else {
                (area.y + margin.1) as u16
            },
            width: (area.width - sides) as u16,
            height: (area.height - ends) as u16,
        }
    }
}

/// Whether `rect` goes across what `layout` leaves of `area`: from its left
/// to its right where the layout stacks its rectangles, from its top to
/// its bottom where it lines them up.
pub open spec fn goes_across(layout: Layout, area: Rect, rect: Rect) -> bool {
    let within = inner(area, layout_margin(layout));
    if layout_is_vertical(layout) {
        rect.x == within.x && rect.width == within.width
    } else {
        rect.y == within.y && rect.height == within.height
    }
}

/// `Layout::constraints` on a clone of `layout`: a layout that splits an
/// area by `constraints`, and is as `layout` in all else.
#[verifier::external_body]
fn with_constraints(layout: &Layout, constraints: &Vec<Constraint>) -> (constrained: Layout)
    ensures
        layout_constraints(constrained) == constraints@,
        layout_is_vertical(constrained) == layout_is_vertical(*layout),
        layout_margin(constrained) == layout_margin(*layout),
{
    layout.clone().constraints(constraints.iter().map(|constraint| match *constraint {
        Constraint::Min(n) => RatatuiConstraint::Min(n),
        Constraint::Max(n) => RatatuiConstraint::Max(n),
        Constraint::Length(n) => RatatuiConstraint::Length(n),
        Constraint::Percentage(n) => RatatuiConstraint::Percentage(n),
        Constraint::Ratio(n, d) => RatatuiConstraint::Ratio(n, d),
        Constraint::Fill(n) => RatatuiConstraint::Fill(n),
    }))
}

/// `Layout::split`: one rectangle for each constraint of the layout, in the
/// order of the constraints. Each goes across what the margin leaves of the
/// area. How long each is, and so where it starts, is the solver's choice:
/// the solver walks hash maps in an order that differs from run to run, and
/// where the constraints leave a choice the split may differ too. What the
/// solver must meet (the rectangles lie within the area, one behind the
/// other) can be met for every area, so a split is always found.
#[verifier::external_body]
fn split(layout: &Layout, area: Rect) -> (rects: Vec<Rect>)
    ensures
        rects@.len() == layout_constraints(*layout).len(),
        forall|i: int| 0 <= i < rects@.len() ==> goes_across(*layout, area, #[trigger] rects@[i]),
{
    let area = RatatuiRect { x: area.x, y: area.y, width: area.width, height: area.height };
    layout.split(area).iter().map(|r| Rect { x: r.x, y: r.y, width: r.width, height: r.height })
        .collect()
}

/// A widget and the share of the area that it asks for.
pub struct DynLayoutItem<'a, W: ?Sized> {
    pub constraint: Constraint,
    pub widget: RefOrDyn<'a, W>,
}

/// A layout that widgets are added to one by one, each with its
/// constraint. The widgets are of one type `W`, which may be unsized.
pub struct DynLayout<'a, W: ?Sized> {
    layout: Layout,
    items: Vec<DynLayoutItem<'a, W>>,
}

impl<'a, W: ?Sized> DynLayout<'a, W> {
    /// The layout that the area is split by.
    pub closed spec fn layout(&self) -> Layout {
        self.layout
    }

    /// The widgets added so far, with their constraints, in order.
    pub closed spec fn items(&self) -> Seq<DynLayoutItem<'a, W>> {
        self.items@
    }

    /// The constraints of the widgets added so far, in order.
    pub open spec fn spec_constraints(&self) -> Seq<Constraint> {
        Seq::new(self.items().len(), |i: int| self.items()[i].constraint)
    }

    /// A layout with no widget yet.
    pub fn from(layout: Layout) -> (dynamic: DynLayout<'a, W>)
        ensures
            dynamic.layout() == layout,
            dynamic.items() == Seq::<DynLayoutItem<'a, W>>::empty(),
    {
        DynLayout { layout, items: Vec::new() }
    }

    /// Adds a widget that the layout owns.
    pub fn add(&mut self, constraint: Constraint, widget: Box<W>)
        ensures
            final(self).layout() == old(self).layout(),
            final(self).items() == old(self).items().push(
                DynLayoutItem { constraint, widget: RefOrDyn::Owned(widget) },
            ),
    {
        self.items.push(DynLayoutItem { constraint, widget: RefOrDyn::Owned(widget) });
    }

    /// Adds a widget that the layout borrows.
    pub fn add_ref(&mut self, constraint: Constraint, widget: &'a W)
        ensures
            final(self).layout() == old(self).layout(),
            final(self).items() == old(self).items().push(
                DynLayoutItem { constraint, widget: RefOrDyn::Ref(widget) },
            ),
    {
        self.items.push(DynLayoutItem { constraint, widget: RefOrDyn::Ref(widget) });
    }

    /// The number of widgets.
    pub fn len(&self) -> (n: usize)
        ensures
            n == self.items().len(),
    {
        self.items.len()
    }

    /// The widget at place `index`.
    pub fn widget(&self, index: usize) -> (widget: &W)
        requires
            index < self.items().len(),
        ensures
            widget == self.items()[index as int].widget.spec_as_ref(),
    {
        self.items[index].widget.as_ref()
    }

    /// The constraints of the widgets, in order.
    pub fn constraints(&self) -> (constraints: Vec<Constraint>)
        ensures
            constraints@ == self.spec_constraints(),
    {
        let mut constraints: Vec<Constraint> = Vec::new();
        let mut i: usize = 0;
        while i < self.items.len()
            invariant
                i <= self.items.len(),
                constraints@.len() == i,
                forall|k: int| 0 <= k < i ==> constraints@[k] == self.items@[k].constraint,
            decreases self.items.len() - i,
        {
            constraints.push(self.items[i].constraint);
            i += 1;
        }
        assert(constraints@ =~= self.spec_constraints());
        constraints
    }

    /// Splits `area` among the widgets: one rectangle for each widget, in
    /// the order in which they were added. Each goes across what the
    /// layout's margin leaves of the area.
    pub fn areas(&self, area: Rect) -> (rects: Vec<Rect>)
        ensures
            rects@.len() == self.items().len(),
            forall|i: int|
                0 <= i < rects@.len() ==> goes_across(self.layout(), area, #[trigger] rects@[i]),
    {
        let constraints = self.constraints();
        let constrained = with_constraints(&self.layout, &constraints);
        split(&constrained, area)
    }

    /// Gives each widget its rectangle: the first rectangle to the widget
    /// added first, and so on.
    pub fn place<'b>(&'b self, rects: &Vec<Rect>) -> (placed: Vec<(Rect, &'b W)>)
        requires
            rects@.len() <= self.items().len(),
        ensures
            placed@.len() == rects@.len(),
            forall|i: int|
                0 <= i < placed@.len() ==> (#[trigger] placed@[i]).0 == rects@[i] && placed@[i].1
                    == self.items()[i].widget.spec_as_ref(),
    {
        let mut placed: Vec<(Rect, &'b W)> = Vec::new();
        let mut index: usize = 0;
        while index < rects.len()
            invariant
                index <= rects@.len() <= self.items@.len(),
                placed@.len() == index,
                forall|i: int|
                    0 <= i < index ==> (#[trigger] placed@[i]).0 == rects@[i] && placed@[i].1
                        == self.items@[i].widget.spec_as_ref(),
            decreases rects@.len() - index,
        {
            placed.push((rects[index], self.items[index].widget.as_ref()));
            index += 1;
        }
        placed
    }

    /// Splits `area` among the widgets and gives each its rectangle, in the
    /// order in which they were added.
    pub fn placed<'b>(&'b self, area: Rect) -> (placed: Vec<(Rect, &'b W)>)
        ensures
            placed@.len() == self.items().len(),
            forall|i: int|
                0 <= i < placed@.len() ==> (#[trigger] placed@[i]).1
                    == self.items()[i].widget.spec_as_ref() && goes_across(
                    self.layout(),
                    area,
                    placed@[i].0,
                ),
    {
        let rects = self.areas(area);
        self.place(&rects)
    }
}

/// What can be turned into a layout that widgets are added to.
pub trait ToDynLayout<'a, W: ?Sized>: Sized {
    /// The layout that `self` stands for.
    spec fn spec_layout(self) -> Layout;

    fn dynamic(self) -> (dynamic: DynLayout<'a, W>)
        ensures
            dynamic.layout() == self.spec_layout(),
            dynamic.items().len() == 0,
    ;
}

impl<'a, W: ?Sized> ToDynLayout<'a, W> for Layout {
    open spec fn spec_layout(self) -> Layout {
        self
    }

    fn dynamic(self) -> (dynamic: DynLayout<'a, W>) {
        DynLayout::from(self)
    }
}

} // verus!
