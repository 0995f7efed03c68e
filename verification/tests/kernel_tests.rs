use brush_core::catalog::{
    GetTileBinEdges, MapGaussiansToIntersect, PrefixSumAddScannedSums, PrefixSumScan,
    PrefixSumScanSums, ProjectBackwards, ProjectSplats, Rasterize, RasterizeBackwards, SortCount,
    SortReduce, SortScan, SortScanAdd, SortScatter,
};
use brush_core::kernels::{div_ceil, execute, DispatchBinding, SplatKernel, Submission};

fn buffer_ids<B: Clone>(s: &Submission<B>) -> Vec<Option<B>> {
    s.bindings
        .iter()
        .map(|b| match b {
            DispatchBinding::Uniform(_) => None,
            DispatchBinding::Buffer(id) => Some(id.clone()),
        })
        .collect()
}

/// S6: the rasterizer at 1920x1080 with 16x16 workgroups and the packed
/// integer flag set.
#[test]
fn rasterize_dispatch() {
    let k = Rasterize::new([16, 16, 1], true);
    let uniforms = vec![0u8; 32];
    let reads: Vec<u32> = vec![10, 11, 12];
    let writes: Vec<u32> = vec![20];
    let s = execute(&k, uniforms, reads, writes, [1920, 1080, 1]);
    assert_eq!(s.grid, [120, 68, 1]);
    assert_eq!(s.kernel_name, "Rasterize");
    assert_eq!(s.shader_defines, vec!["RASTER_U32"]);
    assert_eq!(s.bindings.len(), 1 + 3 + 1);
    assert!(matches!(s.bindings[0], DispatchBinding::Uniform(ref u) if u.len() == 32));
    assert_eq!(
        buffer_ids(&s),
        vec![None, Some(10), Some(11), Some(12), Some(20)]
    );
}

/// An unset flag contributes no define.
#[test]
fn rasterize_without_flag() {
    let k = Rasterize::new([16, 16, 1], false);
    let s = execute(&k, vec![1u8; 4], vec![1u32], vec![2u32], [16, 16, 1]);
    assert!(s.shader_defines.is_empty());
    assert_eq!(s.grid, [1, 1, 1]);
}

/// P7: a uniform-less kernel submits exactly the reads then the writes.
#[test]
fn uniformless_binding_order() {
    let k = GetTileBinEdges::new([256, 1, 1]);
    let reads: Vec<u32> = vec![7, 8];
    let writes: Vec<u32> = vec![9, 10, 11];
    let s = execute(&k, Vec::new(), reads, writes, [1000, 1, 1]);
    assert_eq!(s.bindings.len(), 5);
    assert_eq!(
        buffer_ids(&s),
        vec![Some(7), Some(8), Some(9), Some(10), Some(11)]
    );
    assert_eq!(s.grid, [4, 1, 1]);
}

/// P6: the grid covers the problem size with as few workgroups as possible.
#[test]
fn grid_covers_executions() {
    let cases: [(u32, u32); 8] =
        [(0, 1), (1, 1), (5, 4), (8, 4), (9, 4), (1920, 16), (1080, 16), (25001, 256)];
    for (e, w) in cases {
        let g = div_ceil(e, w) as u64;
        let e = e as u64;
        let w = w as u64;
        assert!(g * w >= e, "{} {} {}", g, w, e);
        assert!(g == 0 || (g - 1) * w < e, "{} {} {}", g, w, e);
        if e == 0 {
            assert_eq!(g, 0);
        }
    }
}

/// The catalog names match the kernel variants, and uniform presence follows
/// each shader's declared uniform struct.
#[test]
fn catalog_shape() {
    let wg = [256, 1, 1];
    assert_eq!(ProjectSplats::new(wg).name(), "ProjectSplats");
    assert!(ProjectSplats::new(wg).has_uniforms());
    assert_eq!(ProjectBackwards::new(wg).name(), "ProjectBackwards");
    assert!(ProjectBackwards::new(wg).has_uniforms());
    assert_eq!(MapGaussiansToIntersect::new(wg).name(), "MapGaussiansToIntersect");
    assert!(MapGaussiansToIntersect::new(wg).has_uniforms());
    assert_eq!(GetTileBinEdges::new(wg).name(), "GetTileBinEdges");
    assert!(!GetTileBinEdges::new(wg).has_uniforms());
    assert_eq!(Rasterize::new(wg, false).name(), "Rasterize");
    assert!(Rasterize::new(wg, false).has_uniforms());
    assert_eq!(RasterizeBackwards::new(wg).name(), "RasterizeBackwards");
    assert!(RasterizeBackwards::new(wg).has_uniforms());
    assert_eq!(PrefixSumScan::new(wg).name(), "PrefixSumScan");
    assert!(!PrefixSumScan::new(wg).has_uniforms());
    assert_eq!(PrefixSumScanSums::new(wg).name(), "PrefixSumScanSums");
    assert!(!PrefixSumScanSums::new(wg).has_uniforms());
    assert_eq!(PrefixSumAddScannedSums::new(wg).name(), "PrefixSumAddScannedSums");
    assert!(!PrefixSumAddScannedSums::new(wg).has_uniforms());
    assert_eq!(SortCount::new(wg).name(), "SortCount");
    assert!(SortCount::new(wg).has_uniforms());
    assert_eq!(SortReduce::new(wg).name(), "SortReduce");
    assert!(!SortReduce::new(wg).has_uniforms());
    assert_eq!(SortScanAdd::new(wg).name(), "SortScanAdd");
    assert!(!SortScanAdd::new(wg).has_uniforms());
    assert_eq!(SortScan::new(wg).name(), "SortScan");
    assert!(!SortScan::new(wg).has_uniforms());
    assert_eq!(SortScatter::new(wg).name(), "SortScatter");
    assert!(SortScatter::new(wg).has_uniforms());
    assert_eq!(ProjectSplats::new([8, 4, 2]).workgroup_size(), [8, 4, 2]);
}

/// Uniform bytes travel into the first binding unchanged.
#[test]
fn uniform_bytes_pass_through() {
    let k = SortCount::new([256, 1, 1]);
    let uniforms = vec![1u8, 2, 3, 4, 5, 6, 7, 8];
    let s = execute(&k, uniforms.clone(), Vec::<u32>::new(), vec![1u32], [512, 1, 1]);
    match &s.bindings[0] {
        DispatchBinding::Uniform(u) => assert_eq!(*u, uniforms),
        DispatchBinding::Buffer(_) => panic!("uniform binding expected first"),
    }
}
