//! The handle through which an application makes its calls.

use vstd::prelude::*;

verus! {

/// The calling surface of a service, held by the application.
///
/// `ClientApi` offers one method for each operation of the service. The
/// client hands out the surface it was made with, unchanged.
pub struct Client<ClientApi> {
    api: ClientApi,
}

impl<ClientApi> Client<ClientApi> {
    /// The calling surface that the client holds.
    pub closed spec fn spec_api(&self) -> &ClientApi {
        &self.api
    }

    /// A client that makes its calls through `api`.
    pub fn new(api: ClientApi) -> (client: Self)
        ensures
            *client.spec_api() == api,
    {
        Client { api }
    }

    /// The calling surface that the client holds.
    #[verifier::when_used_as_spec(spec_api)]
    pub fn api(&self) -> (api: &ClientApi)
        ensures
            api == self.spec_api(),
    {
        &self.api
    }

    /// Gives up the client for the calling surface it holds.
    pub fn into_api(self) -> (api: ClientApi)
        ensures
            api == *self.spec_api(),
    {
        self.api
    }
}

impl<ClientApi> std::ops::Deref for Client<ClientApi> {
    type Target = ClientApi;

    fn deref(&self) -> (api: &ClientApi)
        ensures
            api == self.spec_api(),
    {
        &self.api
    }
}

} // verus!
