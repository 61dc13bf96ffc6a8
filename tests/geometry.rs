use stableview::crop::{crop_window, CropWindow};
use stableview::nms::greedy_keep;
use stableview::priors::{prior_anchors, AnchorCell, AnchorLayout};

#[test]
fn utils_test_crop_img() {
    // a 120 x 120 frame
    let roi_box = [50.0f32, 60.0, 100.0, 120.0];
    let w = crop_window(
        roi_box[0].round() as i32,
        roi_box[1].round() as i32,
        roi_box[2].round() as i32,
        roi_box[3].round() as i32,
        120,
        120,
    );
    assert_eq!(w.height as f32, roi_box[3] - roi_box[1]);
    assert_eq!(w.width as f32, roi_box[2] - roi_box[0]);

    let w = crop_window(50, 60, 400, 400, 120, 120);
    assert_eq!(w.height as f32, 60.);
    assert_eq!(w.width as f32, 70.);
}

#[test]
fn image_test_crop_img() {
    let roi_box = [50.0f32, 60.0, 100.0, 120.0];
    let w = crop_window(50, 60, 100, 120, 120, 120);
    assert_eq!(w.height as f32, roi_box[3] - roi_box[1]);
    assert_eq!(w.width as f32, roi_box[2] - roi_box[0]);

    let roi_box = [50.0f32, 60.0, 400.0, 400.0];
    let w = crop_window(50, 60, 400, 400, 120, 120);
    assert_eq!(w.height as f32, 60.);
    assert_eq!(w.width as f32, 70.);
    assert!((roi_box[2] as i64) > w.x as i64 + w.width);
}

#[test]
fn crop_window_clips_negative_start() {
    let w = crop_window(-10, -5, 30, 40, 640, 480);
    assert_eq!(w, CropWindow { x: 0, y: 0, width: 30, height: 40 });
}

#[test]
fn crop_window_outside_frame_is_empty_or_negative() {
    let w = crop_window(700, 10, 800, 20, 640, 480);
    assert_eq!(w.x, 700);
    assert_eq!(w.width, -60);
    assert_eq!(w.height, 10);
}

fn matrix(n: usize, pairs: &[(usize, usize)]) -> Vec<Vec<bool>> {
    let mut m = vec![vec![false; n]; n];
    for &(i, j) in pairs {
        m[i][j] = true;
    }
    m
}

#[test]
fn nms_keeps_top_and_drops_overlapping_lower() {
    // 0 overlaps 1; 2 is apart
    let kept = greedy_keep(&matrix(3, &[(0, 1)]));
    assert_eq!(kept, vec![0, 2]);
}

#[test]
fn nms_suppressed_box_does_not_suppress() {
    // 0 suppresses 1, and 1 would suppress 2; 1 is gone, so 2 stays
    let kept = greedy_keep(&matrix(3, &[(0, 1), (1, 2)]));
    assert_eq!(kept, vec![0, 2]);
}

#[test]
fn nms_chain_from_top() {
    let kept = greedy_keep(&matrix(4, &[(0, 1), (0, 2), (0, 3)]));
    assert_eq!(kept, vec![0]);
}

#[test]
fn nms_empty_and_single() {
    assert_eq!(greedy_keep(&Vec::new()), Vec::<usize>::new());
    assert_eq!(greedy_keep(&matrix(1, &[])), vec![0]);
}

#[test]
fn nms_nothing_overlaps() {
    assert_eq!(greedy_keep(&matrix(4, &[])), vec![0, 1, 2, 3]);
}

#[test]
fn prior_anchors_default_detector_count() {
    let layout = AnchorLayout::detector_default();
    let anchors = prior_anchors(&layout, 320, 320);
    // 40 x 40 cells with 2 sizes, then 20 x 20 cells with 6 sizes
    assert_eq!(anchors.len(), 40 * 40 * 2 + 20 * 20 * 6);
    assert_eq!(anchors[0], AnchorCell { col: 0, row: 0, step: 8, min_size: 8 });
    assert_eq!(anchors[1], AnchorCell { col: 0, row: 0, step: 8, min_size: 11 });
    assert_eq!(anchors[2], AnchorCell { col: 1, row: 0, step: 8, min_size: 8 });
    assert_eq!(anchors[80], AnchorCell { col: 0, row: 1, step: 8, min_size: 8 });
    assert_eq!(anchors[3200], AnchorCell { col: 0, row: 0, step: 16, min_size: 14 });
    assert_eq!(anchors[3205], AnchorCell { col: 0, row: 0, step: 16, min_size: 149 });
    assert_eq!(anchors[5599], AnchorCell { col: 19, row: 19, step: 16, min_size: 149 });
}

#[test]
fn prior_anchors_rectangular_input() {
    let layout = AnchorLayout { min_sizes: vec![vec![4]], steps: vec![10] };
    // 3 columns, 2 rows
    let anchors = prior_anchors(&layout, 35, 20);
    let cells: Vec<(usize, usize)> = anchors.iter().map(|a| (a.row, a.col)).collect();
    assert_eq!(cells, vec![(0, 0), (0, 1), (0, 2), (1, 0), (1, 1), (1, 2)]);
}

#[test]
fn prior_anchors_uses_levels_with_both_lists() {
    let layout = AnchorLayout { min_sizes: vec![vec![4, 5]], steps: vec![10, 20] };
    let anchors = prior_anchors(&layout, 20, 20);
    assert_eq!(anchors.len(), 2 * 2 * 2);
}
