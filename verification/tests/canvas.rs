use spectrum_canvas::bars::Bars;
use spectrum_canvas::buffer::Buffer;
use spectrum_canvas::canvas::CellWrite;
use spectrum_canvas::cell::Cell;
use spectrum_canvas::cell::Color;
use spectrum_canvas::painter::Painter;

/// Sets every cell of the frame to one cell.
struct Fill {
    cell: Cell,
    calls: usize,
}

impl Painter for Fill {
    type Data = ();

    fn paint(&mut self, frame: &mut [Cell], _width: usize, _height: usize, _data: ()) {
        self.calls += 1;
        for cell in frame.iter_mut() {
            *cell = self.cell;
        }
    }
}

/// Sets the cells whose indices it is given.
struct Dots {
    cell: Cell,
}

impl Painter for Dots {
    type Data = Vec<usize>;

    fn paint(&mut self, frame: &mut [Cell], _width: usize, _height: usize, data: Vec<usize>) {
        for i in data {
            frame[i] = self.cell;
        }
    }
}

fn filled() -> Cell {
    Cell::on(Color::Green)
}

fn positions(writes: &[CellWrite]) -> Vec<(usize, usize)> {
    writes.iter().map(|w| (w.column, w.row)).collect()
}

#[test]
fn new_canvas_has_no_cells() {
    let mut canvas = Buffer::<Fill>::new();
    assert_eq!(canvas.width(), 0);
    assert_eq!(canvas.height(), 0);
    assert!(canvas.present().is_empty());
}

#[test]
fn blank_cell_is_a_space_in_default_colours() {
    let blank = Cell::blank();
    assert_eq!(blank.symbol, ' ');
    assert_eq!(blank.foreground, None);
    assert_eq!(blank.background, None);
    let black = Cell::on(Color::Black);
    assert_eq!(black.symbol, ' ');
    assert_eq!(black.foreground, None);
    assert_eq!(black.background, Some(Color::Black));
    assert_ne!(blank, black);
}

#[test]
fn resize_sets_the_size() {
    let mut canvas = Buffer::<Fill>::new();
    canvas.resize(7, 4);
    assert_eq!(canvas.width(), 7);
    assert_eq!(canvas.height(), 4);
}

#[test]
fn first_present_after_resize_writes_every_cell_once() {
    let mut canvas = Buffer::<Fill>::new();
    canvas.resize(3, 2);
    let writes = canvas.present();
    assert_eq!(
        positions(&writes),
        vec![(0, 0), (1, 0), (2, 0), (0, 1), (1, 1), (2, 1)]
    );
    for write in &writes {
        assert_eq!(write.cell, Cell::blank());
    }
}

#[test]
fn full_repaint_ignores_what_the_frames_hold() {
    let mut canvas = Buffer::<Fill>::new();
    canvas.on_update(Fill { cell: filled(), calls: 0 });
    canvas.resize(2, 2);
    canvas.update(());
    canvas.present();
    canvas.update(());
    assert!(canvas.present().is_empty());
    canvas.resize(4, 3);
    let writes = canvas.present();
    assert_eq!(writes.len(), 12);
    for (i, write) in writes.iter().enumerate() {
        assert_eq!(write.column, i % 4);
        assert_eq!(write.row, i / 4);
        assert_eq!(write.cell, Cell::blank());
    }
}

#[test]
fn full_repaint_writes_what_was_drawn() {
    let mut canvas = Buffer::<Fill>::new();
    canvas.on_update(Fill { cell: filled(), calls: 0 });
    canvas.resize(3, 2);
    canvas.update(());
    let writes = canvas.present();
    assert_eq!(writes.len(), 6);
    for write in &writes {
        assert_eq!(write.cell, filled());
    }
}

#[test]
fn scenario_three_by_two_filled() {
    let mut canvas = Buffer::<Fill>::new();
    canvas.resize(3, 2);
    canvas.on_update(Fill { cell: filled(), calls: 0 });
    canvas.update(());
    assert_eq!(canvas.present().len(), 6);
    canvas.update(());
    assert_eq!(canvas.present().len(), 0);
    canvas.resize(3, 2);
    canvas.update(());
    assert_eq!(canvas.present().len(), 0);
}

#[test]
fn resize_to_same_size_twice_changes_nothing() {
    let mut canvas = Buffer::<Fill>::new();
    canvas.on_update(Fill { cell: filled(), calls: 0 });
    canvas.resize(3, 2);
    canvas.resize(3, 2);
    canvas.update(());
    assert_eq!(canvas.present().len(), 6);
    canvas.update(());
    canvas.resize(3, 2);
    canvas.resize(3, 2);
    assert_eq!(canvas.width(), 3);
    assert_eq!(canvas.height(), 2);
    assert!(canvas.present().is_empty());
}

#[test]
fn resize_to_same_size_keeps_the_frames() {
    let mut canvas = Buffer::<Dots>::new();
    canvas.on_update(Dots { cell: filled() });
    canvas.resize(2, 2);
    canvas.present();
    canvas.update(vec![3]);
    canvas.resize(2, 2);
    let writes = canvas.present();
    assert_eq!(writes, vec![CellWrite { column: 1, row: 1, cell: filled() }]);
}

#[test]
fn resize_with_equal_cell_count_blanks_and_repaints() {
    let mut canvas = Buffer::<Fill>::new();
    canvas.on_update(Fill { cell: filled(), calls: 0 });
    canvas.resize(3, 2);
    canvas.update(());
    canvas.present();
    canvas.update(());
    canvas.present();
    canvas.resize(2, 3);
    assert_eq!(canvas.width(), 2);
    assert_eq!(canvas.height(), 3);
    let writes = canvas.present();
    assert_eq!(
        positions(&writes),
        vec![(0, 0), (1, 0), (0, 1), (1, 1), (0, 2), (1, 2)]
    );
    for write in &writes {
        assert_eq!(write.cell, Cell::blank());
    }
}

#[test]
fn resize_to_zero_is_legal() {
    let mut canvas = Buffer::<Fill>::new();
    canvas.on_update(Fill { cell: filled(), calls: 0 });
    canvas.resize(3, 2);
    canvas.resize(0, 5);
    assert_eq!(canvas.width(), 0);
    assert_eq!(canvas.height(), 5);
    canvas.update(());
    assert!(canvas.present().is_empty());
    canvas.resize(4, 0);
    canvas.update(());
    assert!(canvas.present().is_empty());
    canvas.resize(0, 0);
    assert!(canvas.present().is_empty());
}

#[test]
fn update_without_painter_does_nothing() {
    let mut canvas = Buffer::<Fill>::new();
    canvas.resize(2, 2);
    canvas.present();
    canvas.update(());
    assert!(canvas.present().is_empty());
}

#[test]
fn update_hands_the_painter_the_size_and_the_data() {
    struct Probe;
    impl Painter for Probe {
        type Data = (usize, usize, usize);
        fn paint(&mut self, frame: &mut [Cell], width: usize, height: usize, data: Self::Data) {
            assert_eq!(frame.len(), data.0);
            assert_eq!(width, data.1);
            assert_eq!(height, data.2);
        }
    }
    let mut canvas = Buffer::<Probe>::new();
    canvas.on_update(Probe);
    canvas.update((0, 0, 0));
    canvas.resize(5, 3);
    canvas.update((15, 5, 3));
}

#[test]
fn on_update_replaces_the_painter() {
    let mut canvas = Buffer::<Fill>::new();
    canvas.resize(2, 1);
    canvas.on_update(Fill { cell: filled(), calls: 0 });
    canvas.on_update(Fill { cell: Cell::on(Color::Red), calls: 0 });
    canvas.update(());
    let writes = canvas.present();
    assert_eq!(writes.len(), 2);
    for write in &writes {
        assert_eq!(write.cell, Cell::on(Color::Red));
    }
}

#[test]
fn present_writes_only_changed_cells() {
    let mut canvas = Buffer::<Dots>::new();
    canvas.on_update(Dots { cell: filled() });
    canvas.resize(3, 2);
    assert_eq!(canvas.present().len(), 6);
    canvas.update(vec![1, 5]);
    let writes = canvas.present();
    assert_eq!(
        writes,
        vec![
            CellWrite { column: 1, row: 0, cell: filled() },
            CellWrite { column: 2, row: 1, cell: filled() },
        ]
    );
}

#[test]
fn redrawn_cell_is_not_written_again() {
    let mut canvas = Buffer::<Dots>::new();
    canvas.on_update(Dots { cell: filled() });
    canvas.resize(3, 2);
    canvas.present();
    canvas.update(vec![4]);
    assert_eq!(canvas.present().len(), 1);
    canvas.update(vec![4]);
    assert!(canvas.present().is_empty());
}

#[test]
fn clean_cell_left_alone_is_not_written() {
    let mut canvas = Buffer::<Dots>::new();
    canvas.on_update(Dots { cell: filled() });
    canvas.resize(2, 2);
    canvas.present();
    canvas.update(vec![0]);
    let first = canvas.present();
    assert_eq!(positions(&first), vec![(0, 0)]);
    canvas.update(vec![0]);
    let second = canvas.present();
    assert!(second.iter().all(|w| (w.column, w.row) != (1, 1)));
    assert!(second.is_empty());
}

#[test]
fn frames_change_places_at_a_presentation() {
    let mut canvas = Buffer::<Dots>::new();
    canvas.on_update(Dots { cell: filled() });
    canvas.resize(1, 1);
    canvas.present();
    canvas.update(vec![0]);
    assert_eq!(
        canvas.present(),
        vec![CellWrite { column: 0, row: 0, cell: filled() }]
    );
    // The frame drawn two presentations ago is the one drawn into next:
    // left untouched, its blank cell differs from what is shown.
    assert_eq!(
        canvas.present(),
        vec![CellWrite { column: 0, row: 0, cell: Cell::blank() }]
    );
}

#[test]
fn bars_on_a_canvas() {
    let mut canvas = Buffer::<Bars>::new();
    canvas.on_update(Bars::plain());
    canvas.resize(3, 2);
    canvas.update(vec![0, 1, -1]);
    let writes = canvas.present();
    let bar = Cell::blank();
    let rest = Cell::on(Color::Black);
    assert_eq!(
        writes,
        vec![
            CellWrite { column: 0, row: 0, cell: rest },
            CellWrite { column: 1, row: 0, cell: bar },
            CellWrite { column: 2, row: 0, cell: rest },
            CellWrite { column: 0, row: 1, cell: bar },
            CellWrite { column: 1, row: 1, cell: bar },
            CellWrite { column: 2, row: 1, cell: rest },
        ]
    );
    canvas.update(vec![0, 1, -1]);
    assert!(canvas.present().is_empty());
    canvas.update(vec![1, 1, -1]);
    assert_eq!(
        canvas.present(),
        vec![CellWrite { column: 0, row: 0, cell: bar }]
    );
}
