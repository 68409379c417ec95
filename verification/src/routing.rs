//! Which request goes where.
//!
//! Every request the server answers is one endpoint, and every endpoint has
//! one method and one path. Binding an endpoint to the code that answers it is
//! the server's work; this is the list it binds from.
use vstd::prelude::*;

verus! {

/// How a request asks.
#[derive(Clone, Copy, Debug, PartialEq, Eq, Structural)]
pub enum Method {
    Get,
    Post,
    Put,
    Delete,
}

/// Everything that can be asked.
#[derive(Clone, Copy, Debug, PartialEq, Eq, Structural)]
pub enum Endpoint {
    IndexPage,
    ViewerPage,
    LeafletJs,
    LeafletCss,
    AppCss,
    AppJs,
    IndexJs,
    ViewerJs,
    PickerJs,
    MarkerIcon,
    MarkerIcon2x,
    MarkerShadow,
    LayersPng,
    Layers2xPng,
    LogoSvg,
    Favicon,
    Health,
    LoginPage,
    InvitePage,
    LoginJs,
    Me,
    Login,
    Logout,
    RedeemInvite,
    ListUsers,
    CreateUser,
    UpdateUser,
    DeleteUser,
    ReissueInvite,
    PutAccess,
    GetPreferences,
    PutPreferences,
    LayersPage,
    SettingsPage,
    SettingsJs,
    GetSettings,
    PutSettings,
    LayersJs,
    GetLayers,
    PutLayers,
    LayerUsage,
    ListInterpretations,
    CatalogTrackGeojson,
    CatalogLevel2,
    GroupTrackGeojson,
    GroupLevel2,
    DatasetDownload,
    DatasetTrackGeojson,
    DatasetImage,
    GetInterpretationRaw,
    InterpretationLevel2,
    GetInterpretation,
    PutInterpretation,
    DeleteInterpretation,
    ListProfiles,
    ListDatasets,
    UploadDataset,
    RestoreDataset,
    ListIgnored,
    GetProperties,
    PutProperties,
    DatasetDetail,
    RemoveDataset,
    DatasetTrack,
    DatasetAttributes,
    DatasetAxes,
    GroupTracks,
    GetGroupProperties,
    PutGroupProperties,
    OverviewImage,
    ChunkImage,
    GetDerived,
    PutDerived,
    GetContributors,
    DownloadDerived,
    PreviewDerived,
    DerivedLevel2,
    GetDerivedItem,
    ListRevisions,
}

/// One line of the list.
#[derive(Clone, Copy, Debug, PartialEq, Eq)]
pub struct Route {
    pub method: Method,
    /// The path, with a name in braces for each part that varies.
    pub path: &'static str,
    pub endpoint: Endpoint,
}

/// One line of the list, as plain values.
#[verifier::ext_equal]
pub struct RouteView {
    pub method: Method,
    pub path: Seq<char>,
    pub endpoint: Endpoint,
}

impl DeepView for Route {
    type V = RouteView;

    open spec fn deep_view(&self) -> RouteView {
        RouteView { method: self.method, path: self.path@, endpoint: self.endpoint }
    }
}

impl Endpoint {
    /// The method an endpoint is asked with.
    pub open spec fn method_of(self) -> Method {
        match self {
            Endpoint::Login => Method::Post,
            Endpoint::Logout => Method::Post,
            Endpoint::RedeemInvite => Method::Post,
            Endpoint::CreateUser => Method::Post,
            Endpoint::UpdateUser => Method::Put,
            Endpoint::DeleteUser => Method::Delete,
            Endpoint::ReissueInvite => Method::Post,
            Endpoint::PutAccess => Method::Put,
            Endpoint::PutPreferences => Method::Put,
            Endpoint::PutSettings => Method::Put,
            Endpoint::PutLayers => Method::Put,
            Endpoint::PutInterpretation => Method::Put,
            Endpoint::DeleteInterpretation => Method::Delete,
            Endpoint::UploadDataset => Method::Post,
            Endpoint::RestoreDataset => Method::Post,
            Endpoint::PutProperties => Method::Put,
            Endpoint::RemoveDataset => Method::Delete,
            Endpoint::PutGroupProperties => Method::Put,
            Endpoint::PutDerived => Method::Put,
            Endpoint::PreviewDerived => Method::Post,
            _ => Method::Get,
        }
    }

    /// The method an endpoint is asked with.
    pub fn method(self) -> (method: Method)
        ensures
            method == self.method_of(),
    {
        match self {
            Endpoint::Login => Method::Post,
            Endpoint::Logout => Method::Post,
            Endpoint::RedeemInvite => Method::Post,
            Endpoint::CreateUser => Method::Post,
            Endpoint::UpdateUser => Method::Put,
            Endpoint::DeleteUser => Method::Delete,
            Endpoint::ReissueInvite => Method::Post,
            Endpoint::PutAccess => Method::Put,
            Endpoint::PutPreferences => Method::Put,
            Endpoint::PutSettings => Method::Put,
            Endpoint::PutLayers => Method::Put,
            Endpoint::PutInterpretation => Method::Put,
            Endpoint::DeleteInterpretation => Method::Delete,
            Endpoint::UploadDataset => Method::Post,
            Endpoint::RestoreDataset => Method::Post,
            Endpoint::PutProperties => Method::Put,
            Endpoint::RemoveDataset => Method::Delete,
            Endpoint::PutGroupProperties => Method::Put,
            Endpoint::PutDerived => Method::Put,
            Endpoint::PreviewDerived => Method::Post,
            _ => Method::Get,
        }
    }

    /// The path an endpoint is asked at.
    pub open spec fn path_of(self) -> Seq<char> {
        match self {
            Endpoint::IndexPage => "/"@,
            Endpoint::ViewerPage => "/view/{radargram_id}"@,
            Endpoint::LeafletJs => "/static/leaflet.js"@,
            Endpoint::LeafletCss => "/static/leaflet.css"@,
            Endpoint::AppCss => "/static/app.css"@,
            Endpoint::AppJs => "/static/app.js"@,
            Endpoint::IndexJs => "/static/index.js"@,
            Endpoint::ViewerJs => "/static/viewer.js"@,
            Endpoint::PickerJs => "/static/picker.js"@,
            Endpoint::MarkerIcon => "/static/images/marker-icon.png"@,
            Endpoint::MarkerIcon2x => "/static/images/marker-icon-2x.png"@,
            Endpoint::MarkerShadow => "/static/images/marker-shadow.png"@,
            Endpoint::LayersPng => "/static/images/layers.png"@,
            Endpoint::Layers2xPng => "/static/images/layers-2x.png"@,
            Endpoint::LogoSvg => "/static/images/logo.svg"@,
            Endpoint::Favicon => "/favicon.ico"@,
            Endpoint::Health => "/api/v1/health"@,
            Endpoint::LoginPage => "/login"@,
            Endpoint::InvitePage => "/invite/{token}"@,
            Endpoint::LoginJs => "/static/login.js"@,
            Endpoint::Me => "/api/v1/auth/me"@,
            Endpoint::Login => "/api/v1/auth/login"@,
            Endpoint::Logout => "/api/v1/auth/logout"@,
            Endpoint::RedeemInvite => "/api/v1/auth/invite"@,
            Endpoint::ListUsers => "/api/v1/users"@,
            Endpoint::CreateUser => "/api/v1/users"@,
            Endpoint::UpdateUser => "/api/v1/users/{name}"@,
            Endpoint::DeleteUser => "/api/v1/users/{name}"@,
            Endpoint::ReissueInvite => "/api/v1/users/{name}/invite"@,
            Endpoint::PutAccess => "/api/v1/access"@,
            Endpoint::GetPreferences => "/api/v1/preferences"@,
            Endpoint::PutPreferences => "/api/v1/preferences"@,
            Endpoint::LayersPage => "/layers"@,
            Endpoint::SettingsPage => "/settings"@,
            Endpoint::SettingsJs => "/static/settings.js"@,
            Endpoint::GetSettings => "/api/v1/project/settings"@,
            Endpoint::PutSettings => "/api/v1/project/settings"@,
            Endpoint::LayersJs => "/static/layers.js"@,
            Endpoint::GetLayers => "/api/v1/layers"@,
            Endpoint::PutLayers => "/api/v1/layers"@,
            Endpoint::LayerUsage => "/api/v1/layers/usage"@,
            Endpoint::ListInterpretations => "/api/v1/datasets/{radargram_id}/interpretations"@,
            Endpoint::CatalogTrackGeojson => "/api/v1/catalog/track.geojson"@,
            Endpoint::CatalogLevel2 => "/api/v1/catalog/level2"@,
            Endpoint::GroupTrackGeojson => "/api/v1/groups/{group}/track.geojson"@,
            Endpoint::GroupLevel2 => "/api/v1/groups/{group}/level2"@,
            Endpoint::DatasetDownload => "/api/v1/datasets/{radargram_id}/download"@,
            Endpoint::DatasetTrackGeojson => "/api/v1/datasets/{radargram_id}/track.geojson"@,
            Endpoint::DatasetImage => "/api/v1/datasets/{radargram_id}/views/{view}/image"@,
            Endpoint::GetInterpretationRaw => "/api/v1/datasets/{radargram_id}/interpretations/{user}/raw"@,
            Endpoint::InterpretationLevel2 => "/api/v1/datasets/{radargram_id}/interpretations/{user}/level2"@,
            Endpoint::GetInterpretation => "/api/v1/datasets/{radargram_id}/interpretations/{user}"@,
            Endpoint::PutInterpretation => "/api/v1/datasets/{radargram_id}/interpretations/{user}"@,
            Endpoint::DeleteInterpretation => "/api/v1/datasets/{radargram_id}/interpretations/{user}"@,
            Endpoint::ListProfiles => "/api/v1/profiles"@,
            Endpoint::ListDatasets => "/api/v1/datasets"@,
            Endpoint::UploadDataset => "/api/v1/datasets"@,
            Endpoint::RestoreDataset => "/api/v1/datasets/{radargram_id}/restore"@,
            Endpoint::ListIgnored => "/api/v1/catalog/ignored"@,
            Endpoint::GetProperties => "/api/v1/datasets/{radargram_id}/properties"@,
            Endpoint::PutProperties => "/api/v1/datasets/{radargram_id}/properties"@,
            Endpoint::DatasetDetail => "/api/v1/datasets/{radargram_id}"@,
            Endpoint::RemoveDataset => "/api/v1/datasets/{radargram_id}"@,
            Endpoint::DatasetTrack => "/api/v1/datasets/{radargram_id}/track"@,
            Endpoint::DatasetAttributes => "/api/v1/datasets/{radargram_id}/attributes"@,
            Endpoint::DatasetAxes => "/api/v1/datasets/{radargram_id}/axes"@,
            Endpoint::GroupTracks => "/api/v1/groups/{group}/tracks"@,
            Endpoint::GetGroupProperties => "/api/v1/groups/{group}/properties"@,
            Endpoint::PutGroupProperties => "/api/v1/groups/{group}/properties"@,
            Endpoint::OverviewImage => "/api/v1/datasets/{radargram_id}/views/{view}/overview"@,
            Endpoint::ChunkImage => "/api/v1/datasets/{radargram_id}/views/{view}/chunks/{profile}/{x}/{y}"@,
            Endpoint::GetDerived => "/api/v1/derived"@,
            Endpoint::PutDerived => "/api/v1/derived"@,
            Endpoint::GetContributors => "/api/v1/datasets/{radargram_id}/contributors"@,
            Endpoint::DownloadDerived => "/api/v1/datasets/{radargram_id}/derived"@,
            Endpoint::PreviewDerived => "/api/v1/datasets/{radargram_id}/derived/preview"@,
            Endpoint::DerivedLevel2 => "/api/v1/datasets/{radargram_id}/derived/level2"@,
            Endpoint::GetDerivedItem => "/api/v1/datasets/{radargram_id}/derived/{item}"@,
            Endpoint::ListRevisions => "/api/v1/datasets/{radargram_id}/revisions"@,
        }
    }

    /// The path an endpoint is asked at.
    pub fn path(self) -> (path: &'static str)
        ensures
            path@ == self.path_of(),
    {
        match self {
            Endpoint::IndexPage => "/",
            Endpoint::ViewerPage => "/view/{radargram_id}",
            Endpoint::LeafletJs => "/static/leaflet.js",
            Endpoint::LeafletCss => "/static/leaflet.css",
            Endpoint::AppCss => "/static/app.css",
            Endpoint::AppJs => "/static/app.js",
            Endpoint::IndexJs => "/static/index.js",
            Endpoint::ViewerJs => "/static/viewer.js",
            Endpoint::PickerJs => "/static/picker.js",
            Endpoint::MarkerIcon => "/static/images/marker-icon.png",
            Endpoint::MarkerIcon2x => "/static/images/marker-icon-2x.png",
            Endpoint::MarkerShadow => "/static/images/marker-shadow.png",
            Endpoint::LayersPng => "/static/images/layers.png",
            Endpoint::Layers2xPng => "/static/images/layers-2x.png",
            Endpoint::LogoSvg => "/static/images/logo.svg",
            Endpoint::Favicon => "/favicon.ico",
            Endpoint::Health => "/api/v1/health",
            Endpoint::LoginPage => "/login",
            Endpoint::InvitePage => "/invite/{token}",
            Endpoint::LoginJs => "/static/login.js",
            Endpoint::Me => "/api/v1/auth/me",
            Endpoint::Login => "/api/v1/auth/login",
            Endpoint::Logout => "/api/v1/auth/logout",
            Endpoint::RedeemInvite => "/api/v1/auth/invite",
            Endpoint::ListUsers => "/api/v1/users",
            Endpoint::CreateUser => "/api/v1/users",
            Endpoint::UpdateUser => "/api/v1/users/{name}",
            Endpoint::DeleteUser => "/api/v1/users/{name}",
            Endpoint::ReissueInvite => "/api/v1/users/{name}/invite",
            Endpoint::PutAccess => "/api/v1/access",
            Endpoint::GetPreferences => "/api/v1/preferences",
            Endpoint::PutPreferences => "/api/v1/preferences",
            Endpoint::LayersPage => "/layers",
            Endpoint::SettingsPage => "/settings",
            Endpoint::SettingsJs => "/static/settings.js",
            Endpoint::GetSettings => "/api/v1/project/settings",
            Endpoint::PutSettings => "/api/v1/project/settings",
            Endpoint::LayersJs => "/static/layers.js",
            Endpoint::GetLayers => "/api/v1/layers",
            Endpoint::PutLayers => "/api/v1/layers",
            Endpoint::LayerUsage => "/api/v1/layers/usage",
            Endpoint::ListInterpretations => "/api/v1/datasets/{radargram_id}/interpretations",
            Endpoint::CatalogTrackGeojson => "/api/v1/catalog/track.geojson",
            Endpoint::CatalogLevel2 => "/api/v1/catalog/level2",
            Endpoint::GroupTrackGeojson => "/api/v1/groups/{group}/track.geojson",
            Endpoint::GroupLevel2 => "/api/v1/groups/{group}/level2",
            Endpoint::DatasetDownload => "/api/v1/datasets/{radargram_id}/download",
            Endpoint::DatasetTrackGeojson => "/api/v1/datasets/{radargram_id}/track.geojson",
            Endpoint::DatasetImage => "/api/v1/datasets/{radargram_id}/views/{view}/image",
            Endpoint::GetInterpretationRaw => "/api/v1/datasets/{radargram_id}/interpretations/{user}/raw",
            Endpoint::InterpretationLevel2 => "/api/v1/datasets/{radargram_id}/interpretations/{user}/level2",
            Endpoint::GetInterpretation => "/api/v1/datasets/{radargram_id}/interpretations/{user}",
            Endpoint::PutInterpretation => "/api/v1/datasets/{radargram_id}/interpretations/{user}",
            Endpoint::DeleteInterpretation => "/api/v1/datasets/{radargram_id}/interpretations/{user}",
            Endpoint::ListProfiles => "/api/v1/profiles",
            Endpoint::ListDatasets => "/api/v1/datasets",
            Endpoint::UploadDataset => "/api/v1/datasets",
            Endpoint::RestoreDataset => "/api/v1/datasets/{radargram_id}/restore",
            Endpoint::ListIgnored => "/api/v1/catalog/ignored",
            Endpoint::GetProperties => "/api/v1/datasets/{radargram_id}/properties",
            Endpoint::PutProperties => "/api/v1/datasets/{radargram_id}/properties",
            Endpoint::DatasetDetail => "/api/v1/datasets/{radargram_id}",
            Endpoint::RemoveDataset => "/api/v1/datasets/{radargram_id}",
            Endpoint::DatasetTrack => "/api/v1/datasets/{radargram_id}/track",
            Endpoint::DatasetAttributes => "/api/v1/datasets/{radargram_id}/attributes",
            Endpoint::DatasetAxes => "/api/v1/datasets/{radargram_id}/axes",
            Endpoint::GroupTracks => "/api/v1/groups/{group}/tracks",
            Endpoint::GetGroupProperties => "/api/v1/groups/{group}/properties",
            Endpoint::PutGroupProperties => "/api/v1/groups/{group}/properties",
            Endpoint::OverviewImage => "/api/v1/datasets/{radargram_id}/views/{view}/overview",
            Endpoint::ChunkImage => "/api/v1/datasets/{radargram_id}/views/{view}/chunks/{profile}/{x}/{y}",
            Endpoint::GetDerived => "/api/v1/derived",
            Endpoint::PutDerived => "/api/v1/derived",
            Endpoint::GetContributors => "/api/v1/datasets/{radargram_id}/contributors",
            Endpoint::DownloadDerived => "/api/v1/datasets/{radargram_id}/derived",
            Endpoint::PreviewDerived => "/api/v1/datasets/{radargram_id}/derived/preview",
            Endpoint::DerivedLevel2 => "/api/v1/datasets/{radargram_id}/derived/level2",
            Endpoint::GetDerivedItem => "/api/v1/datasets/{radargram_id}/derived/{item}",
            Endpoint::ListRevisions => "/api/v1/datasets/{radargram_id}/revisions",
        }
    }

    /// Where an endpoint stands in the list.
    pub open spec fn place(self) -> int {
        match self {
            Endpoint::IndexPage => 0,
            Endpoint::ViewerPage => 1,
            Endpoint::LeafletJs => 2,
            Endpoint::LeafletCss => 3,
            Endpoint::AppCss => 4,
            Endpoint::AppJs => 5,
            Endpoint::IndexJs => 6,
            Endpoint::ViewerJs => 7,
            Endpoint::PickerJs => 8,
            Endpoint::MarkerIcon => 9,
            Endpoint::MarkerIcon2x => 10,
            Endpoint::MarkerShadow => 11,
            Endpoint::LayersPng => 12,
            Endpoint::Layers2xPng => 13,
            Endpoint::LogoSvg => 14,
            Endpoint::Favicon => 15,
            Endpoint::Health => 16,
            Endpoint::LoginPage => 17,
            Endpoint::InvitePage => 18,
            Endpoint::LoginJs => 19,
            Endpoint::Me => 20,
            Endpoint::Login => 21,
            Endpoint::Logout => 22,
            Endpoint::RedeemInvite => 23,
            Endpoint::ListUsers => 24,
            Endpoint::CreateUser => 25,
            Endpoint::UpdateUser => 26,
            Endpoint::DeleteUser => 27,
            Endpoint::ReissueInvite => 28,
            Endpoint::PutAccess => 29,
            Endpoint::GetPreferences => 30,
            Endpoint::PutPreferences => 31,
            Endpoint::LayersPage => 32,
            Endpoint::SettingsPage => 33,
            Endpoint::SettingsJs => 34,
            Endpoint::GetSettings => 35,
            Endpoint::PutSettings => 36,
            Endpoint::LayersJs => 37,
            Endpoint::GetLayers => 38,
            Endpoint::PutLayers => 39,
            Endpoint::LayerUsage => 40,
            Endpoint::ListInterpretations => 41,
            Endpoint::CatalogTrackGeojson => 42,
            Endpoint::CatalogLevel2 => 43,
            Endpoint::GroupTrackGeojson => 44,
            Endpoint::GroupLevel2 => 45,
            Endpoint::DatasetDownload => 46,
            Endpoint::DatasetTrackGeojson => 47,
            Endpoint::DatasetImage => 48,
            Endpoint::GetInterpretationRaw => 49,
            Endpoint::InterpretationLevel2 => 50,
            Endpoint::GetInterpretation => 51,
            Endpoint::PutInterpretation => 52,
            Endpoint::DeleteInterpretation => 53,
            Endpoint::ListProfiles => 54,
            Endpoint::ListDatasets => 55,
            Endpoint::UploadDataset => 56,
            Endpoint::RestoreDataset => 57,
            Endpoint::ListIgnored => 58,
            Endpoint::GetProperties => 59,
            Endpoint::PutProperties => 60,
            Endpoint::DatasetDetail => 61,
            Endpoint::RemoveDataset => 62,
            Endpoint::DatasetTrack => 63,
            Endpoint::DatasetAttributes => 64,
            Endpoint::DatasetAxes => 65,
            Endpoint::GroupTracks => 66,
            Endpoint::GetGroupProperties => 67,
            Endpoint::PutGroupProperties => 68,
            Endpoint::OverviewImage => 69,
            Endpoint::ChunkImage => 70,
            Endpoint::GetDerived => 71,
            Endpoint::PutDerived => 72,
            Endpoint::GetContributors => 73,
            Endpoint::DownloadDerived => 74,
            Endpoint::PreviewDerived => 75,
            Endpoint::DerivedLevel2 => 76,
            Endpoint::GetDerivedItem => 77,
            Endpoint::ListRevisions => 78,
        }
    }
}

/// The endpoints in order.
pub fn endpoints() -> (row: Vec<Endpoint>)
    ensures
        row.len() == ENDPOINTS,
        forall|i: int| 0 <= i < row.len() ==> (#[trigger] row[i]).place() == i,
{
    let mut row: Vec<Endpoint> = Vec::new();
    row.push(Endpoint::IndexPage);
    row.push(Endpoint::ViewerPage);
    row.push(Endpoint::LeafletJs);
    row.push(Endpoint::LeafletCss);
    row.push(Endpoint::AppCss);
    row.push(Endpoint::AppJs);
    row.push(Endpoint::IndexJs);
    row.push(Endpoint::ViewerJs);
    row.push(Endpoint::PickerJs);
    row.push(Endpoint::MarkerIcon);
    row.push(Endpoint::MarkerIcon2x);
    row.push(Endpoint::MarkerShadow);
    row.push(Endpoint::LayersPng);
    row.push(Endpoint::Layers2xPng);
    row.push(Endpoint::LogoSvg);
    row.push(Endpoint::Favicon);
    row.push(Endpoint::Health);
    row.push(Endpoint::LoginPage);
    row.push(Endpoint::InvitePage);
    row.push(Endpoint::LoginJs);
    row.push(Endpoint::Me);
    row.push(Endpoint::Login);
    row.push(Endpoint::Logout);
    row.push(Endpoint::RedeemInvite);
    row.push(Endpoint::ListUsers);
    row.push(Endpoint::CreateUser);
    row.push(Endpoint::UpdateUser);
    row.push(Endpoint::DeleteUser);
    row.push(Endpoint::ReissueInvite);
    row.push(Endpoint::PutAccess);
    row.push(Endpoint::GetPreferences);
    row.push(Endpoint::PutPreferences);
    row.push(Endpoint::LayersPage);
    row.push(Endpoint::SettingsPage);
    row.push(Endpoint::SettingsJs);
    row.push(Endpoint::GetSettings);
    row.push(Endpoint::PutSettings);
    row.push(Endpoint::LayersJs);
    row.push(Endpoint::GetLayers);
    row.push(Endpoint::PutLayers);
    row.push(Endpoint::LayerUsage);
    row.push(Endpoint::ListInterpretations);
    row.push(Endpoint::CatalogTrackGeojson);
    row.push(Endpoint::CatalogLevel2);
    row.push(Endpoint::GroupTrackGeojson);
    row.push(Endpoint::GroupLevel2);
    row.push(Endpoint::DatasetDownload);
    row.push(Endpoint::DatasetTrackGeojson);
    row.push(Endpoint::DatasetImage);
    row.push(Endpoint::GetInterpretationRaw);
    row.push(Endpoint::InterpretationLevel2);
    row.push(Endpoint::GetInterpretation);
    row.push(Endpoint::PutInterpretation);
    row.push(Endpoint::DeleteInterpretation);
    row.push(Endpoint::ListProfiles);
    row.push(Endpoint::ListDatasets);
    row.push(Endpoint::UploadDataset);
    row.push(Endpoint::RestoreDataset);
    row.push(Endpoint::ListIgnored);
    row.push(Endpoint::GetProperties);
    row.push(Endpoint::PutProperties);
    row.push(Endpoint::DatasetDetail);
    row.push(Endpoint::RemoveDataset);
    row.push(Endpoint::DatasetTrack);
    row.push(Endpoint::DatasetAttributes);
    row.push(Endpoint::DatasetAxes);
    row.push(Endpoint::GroupTracks);
    row.push(Endpoint::GetGroupProperties);
    row.push(Endpoint::PutGroupProperties);
    row.push(Endpoint::OverviewImage);
    row.push(Endpoint::ChunkImage);
    row.push(Endpoint::GetDerived);
    row.push(Endpoint::PutDerived);
    row.push(Endpoint::GetContributors);
    row.push(Endpoint::DownloadDerived);
    row.push(Endpoint::PreviewDerived);
    row.push(Endpoint::DerivedLevel2);
    row.push(Endpoint::GetDerivedItem);
    row.push(Endpoint::ListRevisions);
    row
}

/// How many endpoints there are.
pub const ENDPOINTS: usize = 79;

/// The list itself: every endpoint once, with its method and path.
pub fn routes() -> (list: Vec<Route>)
    ensures
        list.len() == ENDPOINTS,
        forall|i: int|
            0 <= i < list.len() ==> {
                let route = (#[trigger] list.deep_view()[i]);
                &&& route.endpoint.place() == i
                &&& route.method == route.endpoint.method_of()
                &&& route.path == route.endpoint.path_of()
            },
{
    let row = endpoints();
    let mut list: Vec<Route> = Vec::new();
    let mut i: usize = 0;
    while i < row.len()
        invariant
            i <= row.len(),
            row.len() == ENDPOINTS,
            list.len() == i,
            forall|j: int| 0 <= j < row.len() ==> (#[trigger] row[j]).place() == j,
            forall|j: int|
                0 <= j < i ==> {
                    let route = (#[trigger] list.deep_view()[j]);
                    &&& route.endpoint.place() == j
                    &&& route.method == route.endpoint.method_of()
                    &&& route.path == route.endpoint.path_of()
                },
        decreases row.len() - i,
    {
        let endpoint = row[i];
        let route = Route { method: endpoint.method(), path: endpoint.path(), endpoint };
        let ghost so_far = list.deep_view();
        list.push(route);
        assert(list.deep_view() =~= so_far.push(route.deep_view()));
        i = i + 1;
    }
    list
}

/// No two endpoints share a place in the list, and each has one: the list
/// leaves none out and names none twice.
pub proof fn every_endpoint_is_listed_once(a: Endpoint, b: Endpoint)
    ensures
        0 <= a.place() < ENDPOINTS,
        a.place() == b.place() ==> a == b,
{
}

/// A file that comes with the server.
#[derive(Clone, Copy, Debug, PartialEq, Eq)]
pub struct Asset {
    /// Where the file is among the server's own.
    pub file: &'static str,
    pub content_type: &'static str,
}

impl Endpoint {
    /// The file an endpoint serves and what it is served as, where it serves
    /// one.
    pub open spec fn asset_of(self) -> Option<(Seq<char>, Seq<char>)> {
        match self {
            Endpoint::LeafletJs => Some(("vendor/leaflet.js"@, "text/javascript"@)),
            Endpoint::LeafletCss => Some(("vendor/leaflet.css"@, "text/css"@)),
            Endpoint::AppCss => Some(("app.css"@, "text/css"@)),
            Endpoint::AppJs => Some(("app.js"@, "text/javascript"@)),
            Endpoint::IndexJs => Some(("index.js"@, "text/javascript"@)),
            Endpoint::ViewerJs => Some(("viewer.js"@, "text/javascript"@)),
            Endpoint::PickerJs => Some(("picker.js"@, "text/javascript"@)),
            Endpoint::MarkerIcon => Some(("vendor/images/marker-icon.png"@, "image/png"@)),
            Endpoint::MarkerIcon2x => Some(("vendor/images/marker-icon-2x.png"@, "image/png"@)),
            Endpoint::MarkerShadow => Some(("vendor/images/marker-shadow.png"@, "image/png"@)),
            Endpoint::LayersPng => Some(("vendor/images/layers.png"@, "image/png"@)),
            Endpoint::Layers2xPng => Some(("vendor/images/layers-2x.png"@, "image/png"@)),
            Endpoint::LogoSvg => Some(("images/logo.svg"@, "image/svg+xml"@)),
            Endpoint::Favicon => Some(("images/logo.png"@, "image/png"@)),
            Endpoint::LoginJs => Some(("login.js"@, "text/javascript"@)),
            Endpoint::SettingsJs => Some(("settings.js"@, "text/javascript"@)),
            Endpoint::LayersJs => Some(("layers.js"@, "text/javascript"@)),
            _ => None,
        }
    }

    /// The file an endpoint serves, where it serves one.
    pub fn asset(self) -> (asset: Option<Asset>)
        ensures
            match asset {
                Some(asset) => self.asset_of() == Some((asset.file@, asset.content_type@)),
                None => self.asset_of() is None,
            },
    {
        match self {
            Endpoint::LeafletJs => Some(
                Asset { file: "vendor/leaflet.js", content_type: "text/javascript" },
            ),
            Endpoint::LeafletCss => Some(
                Asset { file: "vendor/leaflet.css", content_type: "text/css" },
            ),
            Endpoint::AppCss => Some(
                Asset { file: "app.css", content_type: "text/css" },
            ),
            Endpoint::AppJs => Some(
                Asset { file: "app.js", content_type: "text/javascript" },
            ),
            Endpoint::IndexJs => Some(
                Asset { file: "index.js", content_type: "text/javascript" },
            ),
            Endpoint::ViewerJs => Some(
                Asset { file: "viewer.js", content_type: "text/javascript" },
            ),
            Endpoint::PickerJs => Some(
                Asset { file: "picker.js", content_type: "text/javascript" },
            ),
            Endpoint::MarkerIcon => Some(
                Asset { file: "vendor/images/marker-icon.png", content_type: "image/png" },
            ),
            Endpoint::MarkerIcon2x => Some(
                Asset { file: "vendor/images/marker-icon-2x.png", content_type: "image/png" },
            ),
            Endpoint::MarkerShadow => Some(
                Asset { file: "vendor/images/marker-shadow.png", content_type: "image/png" },
            ),
            Endpoint::LayersPng => Some(
                Asset { file: "vendor/images/layers.png", content_type: "image/png" },
            ),
            Endpoint::Layers2xPng => Some(
                Asset { file: "vendor/images/layers-2x.png", content_type: "image/png" },
            ),
            Endpoint::LogoSvg => Some(
                Asset { file: "images/logo.svg", content_type: "image/svg+xml" },
            ),
            Endpoint::Favicon => Some(
                Asset { file: "images/logo.png", content_type: "image/png" },
            ),
            Endpoint::LoginJs => Some(
                Asset { file: "login.js", content_type: "text/javascript" },
            ),
            Endpoint::SettingsJs => Some(
                Asset { file: "settings.js", content_type: "text/javascript" },
            ),
            Endpoint::LayersJs => Some(
                Asset { file: "layers.js", content_type: "text/javascript" },
            ),
            _ => None,
        }
    }
}

} // verus!
