//! The kernel catalog: one value-typed descriptor per compute shader of the
//! splat renderer. Each carries the workgroup size its shader module was
//! compiled with; `Rasterize` also carries its one feature flag. A flag that
//! is set contributes its upper-cased name as a preprocessor define during
//! shader composition.

use crate::kernels::{is_uppercased, workgroup_wf, SplatKernel};
use vstd::prelude::*;

verus! {

/// Projects splats from world space to screen space (forward pass).
pub struct ProjectSplats {
    pub wg: [u32; 3],
}

impl ProjectSplats {
    pub fn new(workgroup_size: [u32; 3]) -> (r: ProjectSplats)
        requires
            workgroup_wf(workgroup_size),
        ensures
            r.spec_workgroup_size() == workgroup_size,
    {
        ProjectSplats { wg: workgroup_size }
    }
}

impl SplatKernel for ProjectSplats {
    open spec fn spec_name(&self) -> Seq<char> {
        "ProjectSplats"@
    }

    open spec fn spec_defines(&self) -> Seq<Seq<char>> {
        Seq::empty()
    }

    open spec fn spec_has_uniforms(&self) -> bool {
        true
    }

    open spec fn spec_workgroup_size(&self) -> [u32; 3] {
        self.wg
    }

    fn name(&self) -> (r: &'static str) {
        "ProjectSplats"
    }

    fn shader_defines(&self) -> (r: Vec<&'static str>) {
        let v: Vec<&'static str> = Vec::new();
        proof {
            assert(v.deep_view() =~~= Seq::<Seq<char>>::empty());
        }
        v
    }

    fn has_uniforms(&self) -> (r: bool) {
        true
    }

    fn workgroup_size(&self) -> (r: [u32; 3]) {
        self.wg
    }
}

/// Gradient of the projection (backward pass).
pub struct ProjectBackwards {
    pub wg: [u32; 3],
}

impl ProjectBackwards {
    pub fn new(workgroup_size: [u32; 3]) -> (r: ProjectBackwards)
        requires
            workgroup_wf(workgroup_size),
        ensures
            r.spec_workgroup_size() == workgroup_size,
    {
        ProjectBackwards { wg: workgroup_size }
    }
}

impl SplatKernel for ProjectBackwards {
    open spec fn spec_name(&self) -> Seq<char> {
        "ProjectBackwards"@
    }

    open spec fn spec_defines(&self) -> Seq<Seq<char>> {
        Seq::empty()
    }

    open spec fn spec_has_uniforms(&self) -> bool {
        true
    }

    open spec fn spec_workgroup_size(&self) -> [u32; 3] {
        self.wg
    }

    fn name(&self) -> (r: &'static str) {
        "ProjectBackwards"
    }

    fn shader_defines(&self) -> (r: Vec<&'static str>) {
        let v: Vec<&'static str> = Vec::new();
        proof {
            assert(v.deep_view() =~~= Seq::<Seq<char>>::empty());
        }
        v
    }

    fn has_uniforms(&self) -> (r: bool) {
        true
    }

    fn workgroup_size(&self) -> (r: [u32; 3]) {
        self.wg
    }
}

/// Emits (gaussian, tile) intersection pairs for tile binning.
pub struct MapGaussiansToIntersect {
    pub wg: [u32; 3],
}

impl MapGaussiansToIntersect {
    pub fn new(workgroup_size: [u32; 3]) -> (r: MapGaussiansToIntersect)
        requires
            workgroup_wf(workgroup_size),
        ensures
            r.spec_workgroup_size() == workgroup_size,
    {
        MapGaussiansToIntersect { wg: workgroup_size }
    }
}

impl SplatKernel for MapGaussiansToIntersect {
    open spec fn spec_name(&self) -> Seq<char> {
        "MapGaussiansToIntersect"@
    }

    open spec fn spec_defines(&self) -> Seq<Seq<char>> {
        Seq::empty()
    }

    open spec fn spec_has_uniforms(&self) -> bool {
        true
    }

    open spec fn spec_workgroup_size(&self) -> [u32; 3] {
        self.wg
    }

    fn name(&self) -> (r: &'static str) {
        "MapGaussiansToIntersect"
    }

    fn shader_defines(&self) -> (r: Vec<&'static str>) {
        let v: Vec<&'static str> = Vec::new();
        proof {
            assert(v.deep_view() =~~= Seq::<Seq<char>>::empty());
        }
        v
    }

    fn has_uniforms(&self) -> (r: bool) {
        true
    }

    fn workgroup_size(&self) -> (r: [u32; 3]) {
        self.wg
    }
}

/// Builds per-tile run boundaries in the sorted intersection list.
pub struct GetTileBinEdges {
    pub wg: [u32; 3],
}

impl GetTileBinEdges {
    pub fn new(workgroup_size: [u32; 3]) -> (r: GetTileBinEdges)
        requires
            workgroup_wf(workgroup_size),
        ensures
            r.spec_workgroup_size() == workgroup_size,
    {
        GetTileBinEdges { wg: workgroup_size }
    }
}

impl SplatKernel for GetTileBinEdges {
    open spec fn spec_name(&self) -> Seq<char> {
        "GetTileBinEdges"@
    }

    open spec fn spec_defines(&self) -> Seq<Seq<char>> {
        Seq::empty()
    }

    open spec fn spec_has_uniforms(&self) -> bool {
        false
    }

    open spec fn spec_workgroup_size(&self) -> [u32; 3] {
        self.wg
    }

    fn name(&self) -> (r: &'static str) {
        "GetTileBinEdges"
    }

    fn shader_defines(&self) -> (r: Vec<&'static str>) {
        let v: Vec<&'static str> = Vec::new();
        proof {
            assert(v.deep_view() =~~= Seq::<Seq<char>>::empty());
        }
        v
    }

    fn has_uniforms(&self) -> (r: bool) {
        false
    }

    fn workgroup_size(&self) -> (r: [u32; 3]) {
        self.wg
    }
}

/// Per-tile alpha compositing. The `raster_u32` flag switches the shader
/// from floating-point to packed-integer accumulation.
pub struct Rasterize {
    pub wg: [u32; 3],
    pub raster_u32: bool,
}

impl Rasterize {
    pub fn new(workgroup_size: [u32; 3], raster_u32: bool) -> (r: Rasterize)
        requires
            workgroup_wf(workgroup_size),
        ensures
            r.spec_workgroup_size() == workgroup_size,
            r.raster_u32 == raster_u32,
    {
        Rasterize { wg: workgroup_size, raster_u32 }
    }
}

impl SplatKernel for Rasterize {
    open spec fn spec_name(&self) -> Seq<char> {
        "Rasterize"@
    }

    open spec fn spec_defines(&self) -> Seq<Seq<char>> {
        if self.raster_u32 {
            seq!["RASTER_U32"@]
        } else {
            Seq::empty()
        }
    }

    open spec fn spec_has_uniforms(&self) -> bool {
        true
    }

    open spec fn spec_workgroup_size(&self) -> [u32; 3] {
        self.wg
    }

    fn name(&self) -> (r: &'static str) {
        "Rasterize"
    }

    fn shader_defines(&self) -> (r: Vec<&'static str>) {
        let mut v: Vec<&'static str> = Vec::new();
        if self.raster_u32 {
            v.push("RASTER_U32");
        }
        proof {
            assert(v.deep_view() =~~= self.spec_defines());
        }
        v
    }

    fn has_uniforms(&self) -> (r: bool) {
        true
    }

    fn workgroup_size(&self) -> (r: [u32; 3]) {
        self.wg
    }
}

/// Gradient of the rasterizer (backward pass).
pub struct RasterizeBackwards {
    pub wg: [u32; 3],
}

impl RasterizeBackwards {
    pub fn new(workgroup_size: [u32; 3]) -> (r: RasterizeBackwards)
        requires
            workgroup_wf(workgroup_size),
        ensures
            r.spec_workgroup_size() == workgroup_size,
    {
        RasterizeBackwards { wg: workgroup_size }
    }
}

impl SplatKernel for RasterizeBackwards {
    open spec fn spec_name(&self) -> Seq<char> {
        "RasterizeBackwards"@
    }

    open spec fn spec_defines(&self) -> Seq<Seq<char>> {
        Seq::empty()
    }

    open spec fn spec_has_uniforms(&self) -> bool {
        true
    }

    open spec fn spec_workgroup_size(&self) -> [u32; 3] {
        self.wg
    }

    fn name(&self) -> (r: &'static str) {
        "RasterizeBackwards"
    }

    fn shader_defines(&self) -> (r: Vec<&'static str>) {
        let v: Vec<&'static str> = Vec::new();
        proof {
            assert(v.deep_view() =~~= Seq::<Seq<char>>::empty());
        }
        v
    }

    fn has_uniforms(&self) -> (r: bool) {
        true
    }

    fn workgroup_size(&self) -> (r: [u32; 3]) {
        self.wg
    }
}

/// First pass of the three-pass exclusive prefix sum.
pub struct PrefixSumScan {
    pub wg: [u32; 3],
}

impl PrefixSumScan {
    pub fn new(workgroup_size: [u32; 3]) -> (r: PrefixSumScan)
        requires
            workgroup_wf(workgroup_size),
        ensures
            r.spec_workgroup_size() == workgroup_size,
    {
        PrefixSumScan { wg: workgroup_size }
    }
}

impl SplatKernel for PrefixSumScan {
    open spec fn spec_name(&self) -> Seq<char> {
        "PrefixSumScan"@
    }

    open spec fn spec_defines(&self) -> Seq<Seq<char>> {
        Seq::empty()
    }

    open spec fn spec_has_uniforms(&self) -> bool {
        false
    }

    open spec fn spec_workgroup_size(&self) -> [u32; 3] {
        self.wg
    }

    fn name(&self) -> (r: &'static str) {
        "PrefixSumScan"
    }

    fn shader_defines(&self) -> (r: Vec<&'static str>) {
        let v: Vec<&'static str> = Vec::new();
        proof {
            assert(v.deep_view() =~~= Seq::<Seq<char>>::empty());
        }
        v
    }

    fn has_uniforms(&self) -> (r: bool) {
        false
    }

    fn workgroup_size(&self) -> (r: [u32; 3]) {
        self.wg
    }
}

/// Second pass of the prefix sum: scans the per-block sums.
pub struct PrefixSumScanSums {
    pub wg: [u32; 3],
}

impl PrefixSumScanSums {
    pub fn new(workgroup_size: [u32; 3]) -> (r: PrefixSumScanSums)
        requires
            workgroup_wf(workgroup_size),
        ensures
            r.spec_workgroup_size() == workgroup_size,
    {
        PrefixSumScanSums { wg: workgroup_size }
    }
}

impl SplatKernel for PrefixSumScanSums {
    open spec fn spec_name(&self) -> Seq<char> {
        "PrefixSumScanSums"@
    }

    open spec fn spec_defines(&self) -> Seq<Seq<char>> {
        Seq::empty()
    }

    open spec fn spec_has_uniforms(&self) -> bool {
        false
    }

    open spec fn spec_workgroup_size(&self) -> [u32; 3] {
        self.wg
    }

    fn name(&self) -> (r: &'static str) {
        "PrefixSumScanSums"
    }

    fn shader_defines(&self) -> (r: Vec<&'static str>) {
        let v: Vec<&'static str> = Vec::new();
        proof {
            assert(v.deep_view() =~~= Seq::<Seq<char>>::empty());
        }
        v
    }

    fn has_uniforms(&self) -> (r: bool) {
        false
    }

    fn workgroup_size(&self) -> (r: [u32; 3]) {
        self.wg
    }
}

/// Third pass of the prefix sum: adds the scanned block sums back in.
pub struct PrefixSumAddScannedSums {
    pub wg: [u32; 3],
}

impl PrefixSumAddScannedSums {
    pub fn new(workgroup_size: [u32; 3]) -> (r: PrefixSumAddScannedSums)
        requires
            workgroup_wf(workgroup_size),
        ensures
            r.spec_workgroup_size() == workgroup_size,
    {
        PrefixSumAddScannedSums { wg: workgroup_size }
    }
}

impl SplatKernel for PrefixSumAddScannedSums {
    open spec fn spec_name(&self) -> Seq<char> {
        "PrefixSumAddScannedSums"@
    }

    open spec fn spec_defines(&self) -> Seq<Seq<char>> {
        Seq::empty()
    }

    open spec fn spec_has_uniforms(&self) -> bool {
        false
    }

    open spec fn spec_workgroup_size(&self) -> [u32; 3] {
        self.wg
    }

    fn name(&self) -> (r: &'static str) {
        "PrefixSumAddScannedSums"
    }

    fn shader_defines(&self) -> (r: Vec<&'static str>) {
        let v: Vec<&'static str> = Vec::new();
        proof {
            assert(v.deep_view() =~~= Seq::<Seq<char>>::empty());
        }
        v
    }

    fn has_uniforms(&self) -> (r: bool) {
        false
    }

    fn workgroup_size(&self) -> (r: [u32; 3]) {
        self.wg
    }
}

/// Radix sort of (tile, depth) keys: per-block digit counting.
pub struct SortCount {
    pub wg: [u32; 3],
}

impl SortCount {
    pub fn new(workgroup_size: [u32; 3]) -> (r: SortCount)
        requires
            workgroup_wf(workgroup_size),
        ensures
            r.spec_workgroup_size() == workgroup_size,
    {
        SortCount { wg: workgroup_size }
    }
}

impl SplatKernel for SortCount {
    open spec fn spec_name(&self) -> Seq<char> {
        "SortCount"@
    }

    open spec fn spec_defines(&self) -> Seq<Seq<char>> {
        Seq::empty()
    }

    open spec fn spec_has_uniforms(&self) -> bool {
        true
    }

    open spec fn spec_workgroup_size(&self) -> [u32; 3] {
        self.wg
    }

    fn name(&self) -> (r: &'static str) {
        "SortCount"
    }

    fn shader_defines(&self) -> (r: Vec<&'static str>) {
        let v: Vec<&'static str> = Vec::new();
        proof {
            assert(v.deep_view() =~~= Seq::<Seq<char>>::empty());
        }
        v
    }

    fn has_uniforms(&self) -> (r: bool) {
        true
    }

    fn workgroup_size(&self) -> (r: [u32; 3]) {
        self.wg
    }
}

/// Radix sort: reduction of the digit counts.
pub struct SortReduce {
    pub wg: [u32; 3],
}

impl SortReduce {
    pub fn new(workgroup_size: [u32; 3]) -> (r: SortReduce)
        requires
            workgroup_wf(workgroup_size),
        ensures
            r.spec_workgroup_size() == workgroup_size,
    {
        SortReduce { wg: workgroup_size }
    }
}

impl SplatKernel for SortReduce {
    open spec fn spec_name(&self) -> Seq<char> {
        "SortReduce"@
    }

    open spec fn spec_defines(&self) -> Seq<Seq<char>> {
        Seq::empty()
    }

    open spec fn spec_has_uniforms(&self) -> bool {
        false
    }

    open spec fn spec_workgroup_size(&self) -> [u32; 3] {
        self.wg
    }

    fn name(&self) -> (r: &'static str) {
        "SortReduce"
    }

    fn shader_defines(&self) -> (r: Vec<&'static str>) {
        let v: Vec<&'static str> = Vec::new();
        proof {
            assert(v.deep_view() =~~= Seq::<Seq<char>>::empty());
        }
        v
    }

    fn has_uniforms(&self) -> (r: bool) {
        false
    }

    fn workgroup_size(&self) -> (r: [u32; 3]) {
        self.wg
    }
}

/// Radix sort: adds scanned sums across blocks.
pub struct SortScanAdd {
    pub wg: [u32; 3],
}

impl SortScanAdd {
    pub fn new(workgroup_size: [u32; 3]) -> (r: SortScanAdd)
        requires
            workgroup_wf(workgroup_size),
        ensures
            r.spec_workgroup_size() == workgroup_size,
    {
        SortScanAdd { wg: workgroup_size }
    }
}

impl SplatKernel for SortScanAdd {
    open spec fn spec_name(&self) -> Seq<char> {
        "SortScanAdd"@
    }

    open spec fn spec_defines(&self) -> Seq<Seq<char>> {
        Seq::empty()
    }

    open spec fn spec_has_uniforms(&self) -> bool {
        false
    }

    open spec fn spec_workgroup_size(&self) -> [u32; 3] {
        self.wg
    }

    fn name(&self) -> (r: &'static str) {
        "SortScanAdd"
    }

    fn shader_defines(&self) -> (r: Vec<&'static str>) {
        let v: Vec<&'static str> = Vec::new();
        proof {
            assert(v.deep_view() =~~= Seq::<Seq<char>>::empty());
        }
        v
    }

    fn has_uniforms(&self) -> (r: bool) {
        false
    }

    fn workgroup_size(&self) -> (r: [u32; 3]) {
        self.wg
    }
}

/// Radix sort: scan of the digit histogram.
pub struct SortScan {
    pub wg: [u32; 3],
}

impl SortScan {
    pub fn new(workgroup_size: [u32; 3]) -> (r: SortScan)
        requires
            workgroup_wf(workgroup_size),
        ensures
            r.spec_workgroup_size() == workgroup_size,
    {
        SortScan { wg: workgroup_size }
    }
}

impl SplatKernel for SortScan {
    open spec fn spec_name(&self) -> Seq<char> {
        "SortScan"@
    }

    open spec fn spec_defines(&self) -> Seq<Seq<char>> {
        Seq::empty()
    }

    open spec fn spec_has_uniforms(&self) -> bool {
        false
    }

    open spec fn spec_workgroup_size(&self) -> [u32; 3] {
        self.wg
    }

    fn name(&self) -> (r: &'static str) {
        "SortScan"
    }

    fn shader_defines(&self) -> (r: Vec<&'static str>) {
        let v: Vec<&'static str> = Vec::new();
        proof {
            assert(v.deep_view() =~~= Seq::<Seq<char>>::empty());
        }
        v
    }

    fn has_uniforms(&self) -> (r: bool) {
        false
    }

    fn workgroup_size(&self) -> (r: [u32; 3]) {
        self.wg
    }
}

/// Radix sort: scatters keys to their sorted positions.
pub struct SortScatter {
    pub wg: [u32; 3],
}

impl SortScatter {
    pub fn new(workgroup_size: [u32; 3]) -> (r: SortScatter)
        requires
            workgroup_wf(workgroup_size),
        ensures
            r.spec_workgroup_size() == workgroup_size,
    {
        SortScatter { wg: workgroup_size }
    }
}

impl SplatKernel for SortScatter {
    open spec fn spec_name(&self) -> Seq<char> {
        "SortScatter"@
    }

    open spec fn spec_defines(&self) -> Seq<Seq<char>> {
        Seq::empty()
    }

    open spec fn spec_has_uniforms(&self) -> bool {
        true
    }

    open spec fn spec_workgroup_size(&self) -> [u32; 3] {
        self.wg
    }

    fn name(&self) -> (r: &'static str) {
        "SortScatter"
    }

    fn shader_defines(&self) -> (r: Vec<&'static str>) {
        let v: Vec<&'static str> = Vec::new();
        proof {
            assert(v.deep_view() =~~= Seq::<Seq<char>>::empty());
        }
        v
    }

    fn has_uniforms(&self) -> (r: bool) {
        true
    }

    fn workgroup_size(&self) -> (r: [u32; 3]) {
        self.wg
    }
}

/// Law: the define contributed by the rasterizer's feature flag is exactly
/// the upper-cased flag name, and an unset flag contributes nothing.
pub proof fn lemma_rasterize_flag_define(k: Rasterize)
    ensures
        k.raster_u32 ==> k.spec_defines() == seq!["RASTER_U32"@],
        !k.raster_u32 ==> k.spec_defines() == Seq::<Seq<char>>::empty(),
        is_uppercased("raster_u32"@, "RASTER_U32"@),
{
    reveal_strlit("raster_u32");
    reveal_strlit("RASTER_U32");
}

} // verus!
