//! A stack of buffers, one per layer, composed bottom to top when drawn.
use vstd::prelude::*;

use crate::base::buffer::flat::FlatBuffer;
use crate::base::buffer::{
    cell_at, cell_index, lemma_all_draw_calls_within, lemma_cell_index, spec_all_draw_calls, Buffer,
    Drawer,
};
use crate::base::compositor::{compose_cell, spec_compose_cell};
use crate::base::draw::{ErrorOutOfBoundsAxises, Position, Size};
use crate::base::DrawCall;
use crate::cell::{Cell, CellView};
use crate::color::Color;

verus! {

/// What a layer factory must do: accept every size and make a well-formed
/// buffer of the size it is given.
pub open spec fn spec_factory_ok<Buf: Buffer, F: Fn(Size) -> Buf>(f: F) -> bool {
    &&& forall|s: Size| #[trigger] call_requires(f, (s,))
    &&& forall|s: Size, b: Buf| #[trigger] call_ensures(f, (s,), b) ==> b.wf() && b.spec_size() == s
}

/// `cells` with each of `calls` composed over the cell at its position, in order.
pub open spec fn spec_compose_calls(
    cells: Seq<CellView>,
    size: Size,
    calls: Seq<(Position, CellView)>,
) -> Seq<CellView>
    decreases calls.len(),
{
    if calls.len() == 0 {
        cells
    } else {
        let prev = spec_compose_calls(cells, size, calls.drop_last());
        let (pos, cell) = calls.last();
        let i = cell_index(size, pos);
        if 0 <= i < prev.len() {
            prev.update(i, spec_compose_cell(prev[i], cell))
        } else {
            prev
        }
    }
}

/// `cells` with the calls of each layer composed over them, bottom layer first.
pub open spec fn spec_compose_layers(
    cells: Seq<CellView>,
    size: Size,
    layers: Seq<Seq<(Position, CellView)>>,
) -> Seq<CellView>
    decreases layers.len(),
{
    if layers.len() == 0 {
        cells
    } else {
        spec_compose_calls(spec_compose_layers(cells, size, layers.drop_last()), size, layers.last())
    }
}

/// The element at `i`, to change in place.
fn layer_mut<Buf>(layers: &mut Vec<Buf>, i: usize) -> (r: &mut Buf)
    requires
        i < old(layers)@.len(),
    ensures
        *r == old(layers)@[i as int],
        final(layers)@ == old(layers)@.update(i as int, *final(r)),
{
    &mut layers[i]
}

/// A buffer of layers. Writes and reads go to the selected layer; drawing
/// composes every layer, lowest index first, over a clear buffer.
///
/// Layers are kept in vectors ordered by layer index, each index at most once.
#[verifier::reject_recursive_types(Buf)]
pub struct LayeredBuffer<Buf: Buffer, F: Fn(Size) -> Buf> {
    size: Size,
    indices: Vec<isize>,
    layers: Vec<Buf>,
    selected_layer_index: isize,
    buf_factory: F,
    composed_buffer: FlatBuffer,
    bg_fallback: Color,
}

impl<Buf: Buffer, F: Fn(Size) -> Buf> LayeredBuffer<Buf, F> {
    /// The indices of the layers, lowest first.
    pub closed spec fn spec_layer_indices(&self) -> Seq<isize> {
        self.indices@
    }

    /// The index of the selected layer.
    pub closed spec fn spec_selected_index(&self) -> isize {
        self.selected_layer_index
    }

    /// The color the terminal background is assumed to have.
    pub closed spec fn spec_bg_fallback(&self) -> Color {
        self.bg_fallback
    }

    /// The position in the vector of the layer with index `index`.
    closed spec fn spec_position_of(&self, index: isize) -> int {
        choose|i: int| 0 <= i < self.layers@.len() && self.indices@[i] == index
    }

    /// The layers, lowest index first.
    pub closed spec fn spec_layers(&self) -> Seq<Buf> {
        self.layers@
    }

    /// What makes the buffer of each new layer.
    pub closed spec fn spec_factory(&self) -> F {
        self.buf_factory
    }

    /// The selected layer.
    pub closed spec fn spec_selected(&self) -> Buf {
        self.layers@[self.spec_position_of(self.selected_layer_index)]
    }

    closed spec fn layers_ok(&self) -> bool {
        &&& self.indices@.len() == self.layers@.len()
        &&& forall|i: int, j: int|
            0 <= i < j < self.layers@.len() ==> self.indices@[i] < self.indices@[j]
        &&& forall|i: int|
            0 <= i < self.layers@.len() ==> (#[trigger] self.layers@[i]).wf()
                && self.layers@[i].spec_size() == self.size
    }

    /// The layered buffer's invariant.
    pub closed spec fn inv(&self) -> bool {
        &&& self.layers_ok()
        &&& exists|i: int| 0 <= i < self.layers@.len() && self.indices@[i] == self.selected_layer_index
        &&& self.composed_buffer.wf()
        &&& self.composed_buffer.spec_size() == self.size
        &&& spec_factory_ok(self.buf_factory)
    }

    proof fn lemma_position_of(&self, i: int)
        requires
            self.layers_ok(),
            0 <= i < self.layers@.len(),
        ensures
            self.spec_position_of(self.indices@[i]) == i,
    {
        let j = self.spec_position_of(self.indices@[i]);
        assert(0 <= j < self.layers@.len() && self.indices@[j] == self.indices@[i]);
    }

    /// A layered buffer of the given size with one layer, index 0, selected.
    /// `buf_factory` makes the buffer of each new layer.
    pub fn new(size: Size, buf_factory: F) -> (b: Self)
        requires
            spec_factory_ok(buf_factory),
        ensures
            b.inv(),
            b.spec_size() == size,
            b.spec_layer_indices() == seq![0isize],
            b.spec_selected_index() == 0,
            b.spec_bg_fallback() == Color(0x00_00_00_FF),
            b.spec_factory() == buf_factory,
            b.spec_layers().len() == 1,
            call_ensures(buf_factory, (size,), b.spec_layers()[0]),
    {
        let mut layered_buffer = Self {
            size,
            indices: Vec::new(),
            layers: Vec::new(),
            selected_layer_index: 0,
            buf_factory,
            composed_buffer: FlatBuffer::new(size),
            bg_fallback: Color::black(),
        };
        layered_buffer.create_layer(0);
        proof {
            assert(layered_buffer.indices@[0] == 0);
            assert(layered_buffer.spec_layer_indices() =~= seq![0isize]);
            assert(layered_buffer.layers@.len() == 1);
        }
        layered_buffer
    }

    /// The same buffer with the background assumed to be `color`.
    pub fn with_bg_fallback(self, color: Color) -> (b: Self)
        requires
            self.inv(),
        ensures
            b.inv(),
            b.spec_bg_fallback() == color,
            b.spec_layer_indices() == self.spec_layer_indices(),
            b.spec_selected_index() == self.spec_selected_index(),
            b.spec_selected() == self.spec_selected(),
            b.spec_size() == self.spec_size(),
            b.spec_layers() == self.spec_layers(),
            b.spec_factory() == self.spec_factory(),
    {
        let mut s = self;
        s.bg_fallback = color;
        proof {
            let i = choose|i: int| 0 <= i < self.layers@.len() && self.indices@[i] == self.selected_layer_index;
            assert(s.indices@[i] == s.selected_layer_index);
        }
        s
    }

    /// The position in the vector of the layer with index `index`, if any.
    fn find_layer(&self, index: isize) -> (r: Option<usize>)
        ensures
            match r {
                Some(i) => i < self.indices@.len() && self.indices@[i as int] == index,
                None => forall|i: int| 0 <= i < self.indices@.len() ==> self.indices@[i] != index,
            },
    {
        let mut i: usize = 0;
        while i < self.indices.len()
            invariant
                i <= self.indices@.len(),
                forall|j: int| 0 <= j < i ==> self.indices@[j] != index,
            decreases self.indices@.len() - i,
        {
            if self.indices[i] == index {
                return Some(i);
            }
            i += 1;
        }
        None
    }

    /// The position in the vector of the selected layer.
    fn selected_position(&self) -> (i: usize)
        requires
            self.inv(),
        ensures
            i < self.layers@.len(),
            i == self.spec_position_of(self.selected_layer_index),
            self.indices@[i as int] == self.selected_layer_index,
    {
        match self.find_layer(self.selected_layer_index) {
            Some(i) => {
                proof {
                    self.lemma_position_of(i as int);
                }
                i
            },
            None => {
                proof {
                    let k = choose|k: int| 0 <= k < self.layers@.len() && self.indices@[k] == self.selected_layer_index;
                    assert(self.indices@[k] != self.selected_layer_index);
                }
                0
            },
        }
    }

    /// The selected layer.
    fn selected_layer(&self) -> (r: &Buf)
        requires
            self.inv(),
        ensures
            *r == self.spec_selected(),
    {
        let i = self.selected_position();
        &self.layers[i]
    }

    /// The selected layer, to change in place.
    fn selected_layer_mut(&mut self) -> (r: &mut Buf)
        requires
            old(self).inv(),
        ensures
            *r == old(self).spec_selected(),
            final(self).layers@ == old(self).layers@.update(
                old(self).spec_position_of(old(self).selected_layer_index),
                *final(r),
            ),
            final(self).indices@ == old(self).indices@,
            final(self).size == old(self).size,
            final(self).selected_layer_index == old(self).selected_layer_index,
            final(self).buf_factory == old(self).buf_factory,
            final(self).composed_buffer == old(self).composed_buffer,
            final(self).bg_fallback == old(self).bg_fallback,
    {
        let i = self.selected_position();
        layer_mut(&mut self.layers, i)
    }

    /// Adds a layer with index `index`, made by the factory.
    fn create_layer(&mut self, index: isize)
        requires
            old(self).layers_ok(),
            spec_factory_ok(old(self).buf_factory),
            forall|i: int| 0 <= i < old(self).layers@.len() ==> old(self).indices@[i] != index,
        ensures
            final(self).layers_ok(),
            final(self).size == old(self).size,
            final(self).selected_layer_index == old(self).selected_layer_index,
            final(self).buf_factory == old(self).buf_factory,
            final(self).composed_buffer == old(self).composed_buffer,
            final(self).bg_fallback == old(self).bg_fallback,
            exists|k: int|
                0 <= k <= old(self).layers@.len() && final(self).indices@ == old(self).indices@.insert(k, index)
                    && final(self).layers@ == old(self).layers@.insert(k, final(self).layers@[k]) && call_ensures(
                    old(self).buf_factory,
                    (old(self).size,),
                    final(self).layers@[k],
                ),
    {
        let size = self.size;
        let buf = (self.buf_factory)(size);
        let mut k: usize = 0;
        while k < self.indices.len() && self.indices[k] < index
            invariant
                k <= self.indices@.len(),
                self.indices@.len() == self.layers@.len(),
                forall|j: int| 0 <= j < k ==> self.indices@[j] < index,
            decreases self.layers@.len() - k,
        {
            k += 1;
        }
        let ghost before = self.indices@;
        self.indices.insert(k, index);
        self.layers.insert(k, buf);
        proof {
            assert forall|i: int, j: int| 0 <= i < j < self.layers@.len() implies self.indices@[i]
                < self.indices@[j] by {
                if k < before.len() {
                    assert(before[k as int] >= index);
                    assert(before[k as int] != index);
                }
            }
            assert forall|i: int| 0 <= i < self.layers@.len() implies (#[trigger] self.layers@[i]).wf()
                && self.layers@[i].spec_size() == self.size by {
                if i != k {
                    if i < k {
                        assert(self.layers@[i] == old(self).layers@[i]);
                    } else {
                        assert(self.layers@[i] == old(self).layers@[i - 1]);
                    }
                }
            }
        }
    }

    /// Selects the layer with index `index`, creating it first if needed.
    pub fn select_layer(&mut self, index: isize)
        requires
            old(self).inv(),
        ensures
            final(self).inv(),
            final(self).spec_size() == old(self).spec_size(),
            final(self).spec_selected_index() == index,
            final(self).spec_bg_fallback() == old(self).spec_bg_fallback(),
            old(self).spec_layer_indices().contains(index) ==> final(self).spec_layer_indices()
                == old(self).spec_layer_indices(),
            final(self).spec_layer_indices().contains(index),
            final(self).spec_factory() == old(self).spec_factory(),
            old(self).spec_layer_indices().contains(index) ==> final(self).spec_layers() == old(self).spec_layers(),
            !old(self).spec_layer_indices().contains(index) ==> exists|k: int|
                0 <= k <= old(self).spec_layers().len() && final(self).spec_layer_indices()
                    == old(self).spec_layer_indices().insert(k, index) && final(self).spec_layers()
                    == old(self).spec_layers().insert(k, final(self).spec_layers()[k]) && call_ensures(
                    old(self).spec_factory(),
                    (old(self).spec_size(),),
                    #[trigger] final(self).spec_layers()[k],
                ),
    {
        let found = self.find_layer(index);
        if found.is_none() {
            self.create_layer(index);
        }
        self.selected_layer_index = index;
        proof {
            match found {
                Some(i) => {
                    assert(self.spec_layer_indices()[i as int] == index);
                },
                None => {
                    let k = choose|k: int|
                        0 <= k <= old(self).layers@.len() && self.indices@ == old(self).indices@.insert(k, index)
                            && self.layers@ == old(self).layers@.insert(k, self.layers@[k]) && call_ensures(
                            old(self).buf_factory,
                            (old(self).size,),
                            self.layers@[k],
                        );
                    assert(self.indices@[k] == index);
                    assert(self.spec_layer_indices()[k] == index);
                    assert(self.spec_layers()[k] == self.layers@[k]);
                },
            }
        }
    }
}

impl<Buf: Buffer, F: Fn(Size) -> Buf> Buffer for LayeredBuffer<Buf, F> {
    closed spec fn spec_size(&self) -> Size {
        self.size
    }

    /// The cells of the selected layer.
    closed spec fn spec_cells(&self) -> Seq<CellView> {
        self.spec_selected().spec_cells()
    }

    closed spec fn wf(&self) -> bool {
        self.inv()
    }

    /// Writes go to the selected layer, as that layer writes them.
    open spec fn spec_written(under: CellView, cell: CellView) -> CellView {
        Buf::spec_written(under, cell)
    }

    proof fn lemma_wf(&self) {
        let i = choose|i: int| 0 <= i < self.layers@.len() && self.indices@[i] == self.selected_layer_index;
        self.lemma_position_of(i);
        self.layers@[i].lemma_wf();
    }

    fn size(&self) -> (s: Size) {
        self.size
    }

    /// Writes into the selected layer.
    fn set_cell_checked(&mut self, pos: Position, cell: Cell) -> (r: Result<(), ErrorOutOfBoundsAxises>) {
        let i = self.selected_position();
        let ghost before = self.layers@;
        let r = self.layers[i].set_cell_checked(pos, cell);
        proof {
            assert(self.layers@ == before.update(i as int, self.layers@[i as int]));
            assert(self.indices@[i as int] == self.selected_layer_index);
            assert forall|j: int| 0 <= j < self.layers@.len() implies (#[trigger] self.layers@[j]).wf()
                && self.layers@[j].spec_size() == self.size by {
                if j != i {
                    assert(self.layers@[j] == before[j]);
                }
            }
            self.lemma_position_of(i as int);
        }
        r
    }

    fn get_cell(&self, pos: Position) -> (c: &Cell) {
        self.selected_layer().get_cell(pos)
    }

    fn get_cell_mut(&mut self, pos: Position) -> (c: &mut Cell) {
        proof {
            let i = self.spec_position_of(self.selected_layer_index);
            let k = choose|k: int| 0 <= k < self.layers@.len() && self.indices@[k] == self.selected_layer_index;
            self.lemma_position_of(k);
        }
        let layer = self.selected_layer_mut();
        layer.get_cell_mut(pos)
    }

    /// Clears every layer.
    fn clear(&mut self)
        ensures
            final(self).spec_layer_indices() == old(self).spec_layer_indices(),
            final(self).spec_selected_index() == old(self).spec_selected_index(),
            final(self).spec_layers().len() == old(self).spec_layers().len(),
            forall|j: int|
                0 <= j < final(self).spec_layers().len() ==> #[trigger] final(self).spec_layers()[j].spec_cells()
                    == Seq::new(final(self).spec_size().spec_area() as nat, |k: int| Cell::spec_empty()),
    {
        let n = self.layers.len();
        let sel = self.selected_position();
        let ghost keys = self.indices@;
        let mut i: usize = 0;
        while i < n
            invariant
                n == self.layers@.len(),
                sel < n,
                i <= n,
                self.layers_ok(),
                self.indices@ == keys,
                self.indices@[sel as int] == self.selected_layer_index,
                self.size == old(self).size,
                self.selected_layer_index == old(self).selected_layer_index,
                self.inv(),
                forall|j: int|
                    0 <= j < i ==> #[trigger] self.layers@[j].spec_cells() == Seq::new(
                        self.size.spec_area() as nat,
                        |k: int| Cell::spec_empty(),
                    ),
            decreases n - i,
        {
            let ghost before = self.layers@;
            self.layers[i].clear();
            proof {
                assert(self.layers@ == before.update(i as int, self.layers@[i as int]));
                assert(self.indices@ =~= keys);
                assert(self.indices@[sel as int] == self.selected_layer_index);
                assert forall|j: int| 0 <= j < i + 1 implies #[trigger] self.layers@[j].spec_cells() == Seq::new(
                    self.size.spec_area() as nat,
                    |k: int| Cell::spec_empty(),
                ) by {
                    if j != i {
                        assert(self.layers@[j] == before[j]);
                    }
                }
            }
            i += 1;
        }
        proof {
            self.lemma_position_of(sel as int);
        }
    }

    /// Starting a frame starts the frame of every layer.
    open spec fn spec_frame_started(&self, after: &Self) -> bool {
        &&& after.spec_size() == self.spec_size()
        &&& after.spec_layer_indices() == self.spec_layer_indices()
        &&& after.spec_selected_index() == self.spec_selected_index()
        &&& after.spec_bg_fallback() == self.spec_bg_fallback()
        &&& after.spec_layers().len() == self.spec_layers().len()
        &&& forall|j: int|
            0 <= j < self.spec_layers().len() ==> #[trigger] self.spec_layers()[j].spec_frame_started(
                &after.spec_layers()[j],
            )
    }

    /// Ending a frame ends the frame of every layer.
    open spec fn spec_frame_ended(&self, after: &Self) -> bool {
        &&& after.spec_size() == self.spec_size()
        &&& after.spec_layer_indices() == self.spec_layer_indices()
        &&& after.spec_selected_index() == self.spec_selected_index()
        &&& after.spec_bg_fallback() == self.spec_bg_fallback()
        &&& after.spec_layers().len() == self.spec_layers().len()
        &&& forall|j: int|
            0 <= j < self.spec_layers().len() ==> #[trigger] self.spec_layers()[j].spec_frame_ended(
                &after.spec_layers()[j],
            )
    }

    fn start_frame(&mut self) {
        let n = self.layers.len();
        let mut i: usize = 0;
        while i < n
            invariant
                n == self.layers@.len(),
                i <= n,
                self.inv(),
                self.size == old(self).size,
                self.indices@ == old(self).indices@,
                self.selected_layer_index == old(self).selected_layer_index,
                self.bg_fallback == old(self).bg_fallback,
                self.composed_buffer == old(self).composed_buffer,
                self.buf_factory == old(self).buf_factory,
                forall|j: int| 0 <= j < i ==> #[trigger] old(self).layers@[j].spec_frame_started(&self.layers@[j]),
                forall|j: int| i <= j < n ==> #[trigger] self.layers@[j] == old(self).layers@[j],
            decreases n - i,
        {
            let ghost before = self.layers@;
            self.layers[i].start_frame();
            proof {
                assert(self.layers@ == before.update(i as int, self.layers@[i as int]));
                assert forall|j: int| 0 <= j < i + 1 implies #[trigger] old(self).layers@[j].spec_frame_started(
                    &self.layers@[j],
                ) by {
                    if j < i {
                        assert(self.layers@[j] == before[j]);
                    }
                }
                assert forall|j: int| i + 1 <= j < n implies #[trigger] self.layers@[j] == old(self).layers@[j] by {
                    assert(self.layers@[j] == before[j]);
                }
                let k = choose|k: int| 0 <= k < self.layers@.len() && self.indices@[k] == self.selected_layer_index;
                assert(self.indices@[k] == self.selected_layer_index);
            }
            i += 1;
        }
    }

    fn end_frame(&mut self) {
        let n = self.layers.len();
        let mut i: usize = 0;
        while i < n
            invariant
                n == self.layers@.len(),
                i <= n,
                self.inv(),
                self.size == old(self).size,
                self.indices@ == old(self).indices@,
                self.selected_layer_index == old(self).selected_layer_index,
                self.bg_fallback == old(self).bg_fallback,
                self.composed_buffer == old(self).composed_buffer,
                self.buf_factory == old(self).buf_factory,
                forall|j: int| 0 <= j < i ==> #[trigger] old(self).layers@[j].spec_frame_ended(&self.layers@[j]),
                forall|j: int| i <= j < n ==> #[trigger] self.layers@[j] == old(self).layers@[j],
            decreases n - i,
        {
            let ghost before = self.layers@;
            self.layers[i].end_frame();
            proof {
                assert(self.layers@ == before.update(i as int, self.layers@[i as int]));
                assert forall|j: int| 0 <= j < i + 1 implies #[trigger] old(self).layers@[j].spec_frame_ended(
                    &self.layers@[j],
                ) by {
                    if j < i {
                        assert(self.layers@[j] == before[j]);
                    }
                }
                assert forall|j: int| i + 1 <= j < n implies #[trigger] self.layers@[j] == old(self).layers@[j] by {
                    assert(self.layers@[j] == before[j]);
                }
                let k = choose|k: int| 0 <= k < self.layers@.len() && self.indices@[k] == self.selected_layer_index;
                assert(self.indices@[k] == self.selected_layer_index);
            }
            i += 1;
        }
    }
}

impl<Buf: Buffer + Drawer, F: Fn(Size) -> Buf> LayeredBuffer<Buf, F> {
    /// What each layer hands out to render, lowest layer first.
    pub closed spec fn spec_layer_calls(&self) -> Seq<Seq<(Position, CellView)>> {
        self.layers@.map_values(|l: Buf| l.spec_draw_calls())
    }

    /// The cells of all layers composed, lowest first, over empty cells.
    pub open spec fn spec_composed(&self) -> Seq<CellView> {
        spec_compose_layers(
            Seq::new(self.spec_size().spec_area() as nat, |i: int| Cell::spec_empty()),
            self.spec_size(),
            self.spec_layer_calls(),
        )
    }
}

/// Composing calls that all lie in a grid keeps the grid's length.
pub proof fn lemma_compose_calls_len(cells: Seq<CellView>, size: Size, calls: Seq<(Position, CellView)>)
    ensures
        spec_compose_calls(cells, size, calls).len() == cells.len(),
    decreases calls.len(),
{
    if calls.len() > 0 {
        lemma_compose_calls_len(cells, size, calls.drop_last());
    }
}

/// Composing layers keeps the grid's length.
pub proof fn lemma_compose_layers_len(cells: Seq<CellView>, size: Size, layers: Seq<Seq<(Position, CellView)>>)
    ensures
        spec_compose_layers(cells, size, layers).len() == cells.len(),
    decreases layers.len(),
{
    if layers.len() > 0 {
        lemma_compose_layers_len(cells, size, layers.drop_last());
        lemma_compose_calls_len(spec_compose_layers(cells, size, layers.drop_last()), size, layers.last());
    }
}

impl<Buf: Buffer + Drawer, F: Fn(Size) -> Buf> Drawer for LayeredBuffer<Buf, F> {
    /// Every cell of the layers composed, row by row.
    open spec fn spec_draw_calls(&self) -> Seq<(Position, CellView)> {
        spec_all_draw_calls(self.spec_size(), self.spec_composed())
    }

    proof fn lemma_draw_calls_within(&self) {
        lemma_compose_layers_len(
            Seq::new(self.spec_size().spec_area() as nat, |i: int| Cell::spec_empty()),
            self.spec_size(),
            self.spec_layer_calls(),
        );
        lemma_all_draw_calls_within(self.spec_size(), self.spec_composed());
    }

    fn draw(&mut self) -> (calls: Vec<DrawCall>) {
        let bg_fallback: Color = self.bg_fallback;
        let size = self.size;
        let ghost layer_calls = self.spec_layer_calls();
        let ghost empty = Seq::new(size.spec_area() as nat, |i: int| Cell::spec_empty());
        let ghost sel_cells = self.spec_cells();
        proof {
            self.lemma_wf();
        }

        self.composed_buffer.fill(Cell::empty());
        assert(self.composed_buffer.spec_cells() =~= empty);
        proof {
            let i = choose|i: int| 0 <= i < self.layers@.len() && self.indices@[i] == self.selected_layer_index;
            assert(self.indices@[i] == self.selected_layer_index);
        }

        let n = self.layers.len();
        let mut li: usize = 0;
        while li < n
            invariant
                n == self.layers@.len(),
                li <= n,
                self.inv(),
                self.size == size,
                self.indices@ == old(self).indices@,
                self.selected_layer_index == old(self).selected_layer_index,
                self.spec_cells() == sel_cells,
                layer_calls.len() == n,
                forall|j: int| 0 <= j < n ==> #[trigger] self.layers@[j].spec_draw_calls() == layer_calls[j],
                self.composed_buffer.spec_cells() == spec_compose_layers(empty, size, layer_calls.take(li as int)),
            decreases n - li,
        {
            let ghost before = self.layers@;
            proof {
                self.lemma_position_of(self.spec_position_of(self.selected_layer_index));
            }
            let layer = layer_mut(&mut self.layers, li);
            let layer_draws = layer.draw();
            proof {
                assert(self.layers@ == before.update(li as int, self.layers@[li as int]));
                before[li as int].lemma_draw_calls_within();
                assert forall|j: int| 0 <= j < self.layers@.len() implies (#[trigger] self.layers@[j]).wf()
                    && self.layers@[j].spec_size() == self.size by {
                    if j != li {
                        assert(self.layers@[j] == before[j]);
                    }
                }
                let sel = choose|k: int| 0 <= k < self.layers@.len() && self.indices@[k] == self.selected_layer_index;
                self.lemma_position_of(sel);
            }
            let ghost calls_view = layer_draws@.map_values(|c: DrawCall| c@);
            proof {
                assert(calls_view == layer_calls[li as int]);
                assert forall|j: int| 0 <= j < n implies #[trigger] self.layers@[j].spec_draw_calls() == layer_calls[j] by {
                    if j != li {
                        assert(self.layers@[j] == before[j]);
                    }
                }
            }
            let ghost base = self.composed_buffer.spec_cells();
            let mut k: usize = 0;
            while k < layer_draws.len()
                invariant
                    n == self.layers@.len(),
                    li < n,
                    self.inv(),
                    self.size == size,
                    self.indices@ == old(self).indices@,
                    self.selected_layer_index == old(self).selected_layer_index,
                    self.spec_cells() == sel_cells,
                    layer_calls.len() == n,
                    forall|j: int| 0 <= j < n ==> #[trigger] self.layers@[j].spec_draw_calls() == layer_calls[j],
                    k <= layer_draws@.len(),
                    calls_view == layer_draws@.map_values(|c: DrawCall| c@),
                    calls_view == layer_calls[li as int],
                    forall|m: int| 0 <= m < calls_view.len() ==> size.spec_is_within(#[trigger] calls_view[m].0),
                    self.composed_buffer.wf(),
                    self.composed_buffer.spec_size() == size,
                    self.composed_buffer.spec_cells() == spec_compose_calls(base, size, calls_view.take(k as int)),
                decreases layer_draws@.len() - k,
            {
                let call = &layer_draws[k];
                assert(calls_view[k as int] == call@);
                proof {
                    assert(size.spec_is_within(calls_view[k as int].0));
                    lemma_cell_index(size, call.pos, call.pos);
                    self.composed_buffer.lemma_wf();
                    let i = choose|i: int| 0 <= i < self.layers@.len() && self.indices@[i] == self.selected_layer_index;
                    assert(self.indices@[i] == self.selected_layer_index);
                }
                let bottom = self.composed_buffer.get_cell_mut(call.pos);
                compose_cell(bottom, &call.cell, bg_fallback);
                proof {
                    assert(calls_view.take(k + 1).drop_last() =~= calls_view.take(k as int));
                    assert(calls_view.take(k + 1).last() == calls_view[k as int]);
                    let i = choose|i: int| 0 <= i < self.layers@.len() && self.indices@[i] == self.selected_layer_index;
                    assert(self.indices@[i] == self.selected_layer_index);
                }
                k += 1;
            }
            proof {
                assert(calls_view.take(k as int) =~= calls_view);
                assert(layer_calls.take(li + 1).drop_last() =~= layer_calls.take(li as int));
                assert(layer_calls.take(li + 1).last() == layer_calls[li as int]);
            }
            li += 1;
        }
        proof {
            assert(layer_calls.take(n as int) =~= layer_calls);
            assert(self.spec_layer_calls() =~= layer_calls);
        }
        let calls = self.composed_buffer.draw();
        proof {
            let i = choose|i: int| 0 <= i < self.layers@.len() && self.indices@[i] == self.selected_layer_index;
            assert(self.indices@[i] == self.selected_layer_index);
        }
        calls
    }
}

} // verus!
