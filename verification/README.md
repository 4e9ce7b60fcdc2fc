# azidentity

Access tokens for Microsoft Azure from a chain of credentials, verified with Verus.

The chain asks its credentials in order: environment, workload identity, managed identity, Azure
CLI, Azure Developer CLI. The first that succeeds is asked alone from then on. Tokens are cached
by scope and fetched anew when no more than five minutes remain before they expire.

The library decides and computes; it performs no request. Each request for a token is a value that
says which credential to ask or which probe to send next, and that is resumed with the answer.

- `src/scope.rs`: the order among scopes, and the sorted form under which tokens are cached
- `src/cache.rs`: the token cache
- `src/chain.rs`: the chain of credentials
- `src/managed_identity.rs`: discovery of the managed identity endpoint
- `src/credentials.rs`: the credentials of the default chain, set up through the Azure SDK
- `src/entry.rs`: what a caller gets back
- `src/process.rs`: what holds over all the calls of a process
- `src/error.rs`: errors
- `app/`: the requests themselves, and the function that R calls
- `tests/`: tests, with credentials and clients that answer from memory

What is assumed about the Azure SDK stands in the contracts of the functions marked
`external_body`, each with a comment that names the call.
